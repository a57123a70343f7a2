//! The projects: one out of each document of a directory.
//!
//! A project's document carries `name`, `url`, `createdAt` and `updatedAt`
//! in its header, and further fields if its author wished. Its slug is
//! the stem of its file's name.

use crate::dates::{chrono_formatted_date, date_before, midnight_text_of, CalendarDate};
use crate::front_matter::{
    composed, decode_header, decoded_header, delimiter, lemma_composed_splits, split_document,
    split_text, HeaderFault, HeaderParseError,
};
use crate::text::{normalize_newlines, occurs_at};
use crate::header_value::{HeaderTree, HeaderValue};
use crate::listing::{
    is_newest_first, lemma_newest_first_map, lemma_page_of_map, newest_first, page_of,
    paginate, reversed, sort_newest_first, Dated, HasDate,
};
use crate::markdown::{backfill_description, description_or_excerpt, markdown_html, render_body};
use crate::models::project::{ProjectResponse, ProjectResponseView};
use crate::repository::{
    content_file_name, content_name_of, file_stem, is_content_file, is_content_name,
    lemma_slugs_differ, stem_of,
    FileContent, FileContentView, LoadError, LoadFault, SourceFile, SourceFileView,
};
use crate::services::traits::ProjectService;
use vstd::prelude::*;
use vstd::std_specs::convert::FromSpecImpl;
use vstd::string::StringExecFns;

verus! {

/// What the header of a project's document says.
#[derive(Debug)]
pub struct ProjectMetadata {
    pub name: String,
    pub description: String,
    pub url: String,
    pub homepage: Option<String>,
    pub language: String,
    pub stars: i32,
    pub forks: i32,
    pub topics: Vec<String>,
    pub status: String,
    pub featured: bool,
    pub created_at: CalendarDate,
    pub updated_at: CalendarDate,
}

/// The mathematical value of a `ProjectMetadata`.
pub struct ProjectHeader {
    pub name: Seq<char>,
    pub description: Seq<char>,
    pub url: Seq<char>,
    pub homepage: Option<Seq<char>>,
    pub language: Seq<char>,
    pub stars: i32,
    pub forks: i32,
    pub topics: Seq<Seq<char>>,
    pub status: Seq<char>,
    pub featured: bool,
    pub created_at: (int, int, int),
    pub updated_at: (int, int, int),
}

impl DeepView for ProjectMetadata {
    type V = ProjectHeader;

    open spec fn deep_view(&self) -> ProjectHeader {
        ProjectHeader {
            name: self.name@,
            description: self.description@,
            url: self.url@,
            homepage: self.homepage.deep_view(),
            language: self.language@,
            stars: self.stars,
            forks: self.forks,
            topics: self.topics.deep_view(),
            status: self.status@,
            featured: self.featured,
            created_at: self.created_at@,
            updated_at: self.updated_at@,
        }
    }
}

/// A project: its slug, its header and its body as HTML. A project that
/// was loaded has a description: where its header has none, the start of
/// the rendered body stands in.
#[derive(Debug)]
pub struct Project {
    pub slug: String,
    pub metadata: ProjectMetadata,
    pub body_html: String,
}

/// The mathematical value of a `Project`.
pub struct ProjectView {
    pub slug: Seq<char>,
    pub metadata: ProjectHeader,
    pub body_html: Seq<char>,
}

impl DeepView for Project {
    type V = ProjectView;

    open spec fn deep_view(&self) -> ProjectView {
        ProjectView {
            slug: self.slug@,
            metadata: self.metadata.deep_view(),
            body_html: self.body_html@,
        }
    }
}

impl HasDate for ProjectView {
    /// The day of the last update.
    open spec fn date_key(&self) -> (int, int, int) {
        self.metadata.updated_at
    }
}

impl HasDate for Project {
    open spec fn date_key(&self) -> (int, int, int) {
        self.deep_view().date_key()
    }
}

impl Dated for Project {
    fn date(&self) -> (d: CalendarDate) {
        self.metadata.updated_at
    }
}

/// The format of a date in a project's header: year, month and day.
pub open spec fn date_format() -> Seq<char> {
    "%Y-%m-%d"@
}

/// A counter of the header: the integer under `key` cut to 32 bits, and 0
/// where no integer stands there.
pub open spec fn counter_at(doc: HeaderTree, key: Seq<char>) -> i32 {
    match doc.integer_at(key) {
        Some(n) => n as i32,
        None => 0,
    }
}

/// The string under `key`, or `default` where no string stands there.
pub open spec fn text_or(doc: HeaderTree, key: Seq<char>, default: Seq<char>) -> Seq<char> {
    match doc.text_at(key) {
        Some(text) => text,
        None => default,
    }
}

/// The header of a project, read out of the decoded header block. `name`,
/// `url`, `createdAt` and `updatedAt` must be there, in that order of
/// complaint, and the two dates must be dates, `createdAt` first.
/// Everything else has a default.
pub open spec fn project_header_of(doc: HeaderTree) -> Result<ProjectHeader, HeaderFault> {
    if doc.text_at("name"@) is None {
        Err(HeaderFault::MissingField("name"@))
    } else if doc.text_at("url"@) is None {
        Err(HeaderFault::MissingField("url"@))
    } else if doc.text_at("createdAt"@) is None {
        Err(HeaderFault::MissingField("createdAt"@))
    } else if doc.text_at("updatedAt"@) is None {
        Err(HeaderFault::MissingField("updatedAt"@))
    } else {
        let created = doc.text_at("createdAt"@)->0;
        let updated = doc.text_at("updatedAt"@)->0;
        if chrono_formatted_date(created, date_format()) is None {
            Err(HeaderFault::InvalidDate("createdAt"@, created))
        } else if chrono_formatted_date(updated, date_format()) is None {
            Err(HeaderFault::InvalidDate("updatedAt"@, updated))
        } else {
            Ok(
                ProjectHeader {
                    name: doc.text_at("name"@)->0,
                    description: text_or(doc, "description"@, Seq::empty()),
                    url: doc.text_at("url"@)->0,
                    homepage: doc.text_at("homepage"@),
                    language: text_or(doc, "language"@, "Unknown"@),
                    stars: counter_at(doc, "stars"@),
                    forks: counter_at(doc, "forks"@),
                    topics: match doc.texts_at("topics"@) {
                        Some(topics) => topics,
                        None => Seq::empty(),
                    },
                    status: text_or(doc, "status"@, "active"@),
                    featured: match doc.flag_at("featured"@) {
                        Some(flag) => flag,
                        None => false,
                    },
                    created_at: chrono_formatted_date(created, date_format())->0,
                    updated_at: chrono_formatted_date(updated, date_format())->0,
                },
            )
        }
    }
}

/// What parsing a project's document gives: its header and its body as
/// HTML, or the first fault on the way: the split, then the decoding,
/// then the fields.
pub open spec fn parsed_project(content: Seq<char>) -> Result<
    (ProjectHeader, Seq<char>),
    HeaderFault,
> {
    match split_text(content) {
        Err(fault) => Err(fault),
        Ok((block, body)) => match decoded_header(block) {
            Err(fault) => Err(fault),
            Ok(doc) => match project_header_of(doc) {
                Err(fault) => Err(fault),
                Ok(header) => Ok((header, markdown_html(body))),
            },
        },
    }
}

/// What is read out of a header block taken alone: its fields, or the
/// fault of decoding it or of reading them.
pub open spec fn project_fields_of(block: Seq<char>) -> Result<ProjectHeader, HeaderFault> {
    match decoded_header(block) {
        Err(fault) => Err(fault),
        Ok(doc) => project_header_of(doc),
    }
}

/// The fields of a document's header are those of its header block taken
/// alone, and its faults are that block's faults: for every document
/// that, with its line endings normalized, is a delimiter, a header block
/// without delimiter, a delimiter and a body.
pub proof fn lemma_project_fields_from_block(
    content: Seq<char>,
    block: Seq<char>,
    body: Seq<char>,
)
    requires
        normalize_newlines(content) == composed(block, body),
        forall|i: int| !occurs_at(block, delimiter(), i),
    ensures
        match project_fields_of(block) {
            Ok(header) => parsed_project(content) == Ok::<_, HeaderFault>(
                (header, markdown_html(body)),
            ),
            Err(fault) => parsed_project(content) == Err::<(ProjectHeader, Seq<char>), _>(fault),
        },
{
    lemma_composed_splits(content, block, body);
}

/// The project of a slug, a header and a rendered body. An empty
/// description is filled in from the rendered body.
pub open spec fn project_of(slug: Seq<char>, header: ProjectHeader, html: Seq<char>)
    -> ProjectView {
    ProjectView {
        slug,
        metadata: ProjectHeader {
            description: description_or_excerpt(header.description, html),
            ..header
        },
        body_html: html,
    }
}

/// What loading the project of `slug` from a file gives.
pub open spec fn loaded_project(slug: Seq<char>, path: Seq<char>, content: FileContentView)
    -> Result<ProjectView, LoadFault> {
    match content {
        FileContentView::Unreadable(cause) => Err(LoadFault::Io { path, cause }),
        FileContentView::Text(text) => match parsed_project(text) {
            Err(fault) => Err(LoadFault::Parse(fault)),
            Ok((header, html)) => Ok(project_of(slug, header, html)),
        },
    }
}

/// What loading a directory entry gives: the project whose slug is the
/// stem of the file's name.
pub open spec fn project_in(file: SourceFileView) -> Result<ProjectView, LoadFault> {
    loaded_project(stem_of(file.name), file.name, file.content)
}

/// The projects of a scan, in the order of the scan: one for each content
/// file that loads. Other files, and content files that do not load, are
/// passed over.
pub open spec fn loaded_projects(files: Seq<SourceFileView>) -> Seq<ProjectView>
    decreases files.len(),
{
    if files.len() == 0 {
        Seq::empty()
    } else {
        let before = loaded_projects(files.drop_last());
        let file = files.last();
        if is_content_name(file.name) && project_in(file) is Ok {
            before.push(project_in(file)->Ok_0)
        } else {
            before
        }
    }
}

/// Every project of a scan comes from a content file of the scan, and has
/// the stem of that file's name for its slug.
pub proof fn lemma_loaded_from_file(files: Seq<SourceFileView>, k: int)
    requires
        0 <= k < loaded_projects(files).len(),
    ensures
        exists|i: int|
            0 <= i < files.len() && is_content_name(#[trigger] files[i].name) && loaded_projects(
                files,
            )[k].slug == stem_of(files[i].name),
    decreases files.len(),
{
    if files.len() > 0 {
        let before = loaded_projects(files.drop_last());
        let file = files.last();
        if k < before.len() {
            lemma_loaded_from_file(files.drop_last(), k);
            let i = choose|i: int|
                0 <= i < files.drop_last().len() && is_content_name(
                    #[trigger] files.drop_last()[i].name,
                ) && before[k].slug == stem_of(files.drop_last()[i].name);
            assert(files[i] == files.drop_last()[i]);
        } else {
            assert(is_content_name(files[files.len() - 1].name));
        }
    }
}

/// Within a scan, where no two files have one name, no two projects have one
/// slug.
pub proof fn lemma_slugs_are_unique(files: Seq<SourceFileView>)
    requires
        forall|i: int, j: int|
            0 <= i < j < files.len() ==> #[trigger] files[i].name != #[trigger] files[j].name,
    ensures
        forall|a: int, b: int|
            0 <= a < b < loaded_projects(files).len() ==> #[trigger] loaded_projects(files)[a].slug
                != #[trigger] loaded_projects(files)[b].slug,
    decreases files.len(),
{
    if files.len() > 0 {
        let head = files.drop_last();
        let before = loaded_projects(head);
        let now = loaded_projects(files);
        let file = files.last();
        assert forall|i: int, j: int| 0 <= i < j < head.len() implies #[trigger] head[i].name
            != #[trigger] head[j].name by {
            assert(head[i] == files[i] && head[j] == files[j]);
        }
        lemma_slugs_are_unique(head);
        assert forall|a: int, b: int| 0 <= a < b < now.len() implies #[trigger] now[a].slug
            != #[trigger] now[b].slug by {
            if b < before.len() {
                assert(now[a] == before[a] && now[b] == before[b]);
            } else {
                assert(now[a] == before[a]);
                assert(now[b].slug == stem_of(file.name));
                lemma_loaded_from_file(head, a);
                let i = choose|i: int|
                    0 <= i < head.len() && is_content_name(#[trigger] head[i].name)
                        && before[a].slug == stem_of(head[i].name);
                assert(head[i] == files[i]);
                assert(files[i].name != files[files.len() - 1].name);
                if stem_of(files[i].name) == stem_of(file.name) {
                    lemma_slugs_differ(files[i].name, file.name);
                }
            }
        }
    }
}

/// One bad document takes nothing else with it: a file that is no content
/// file, or that does not load, can stand anywhere in a scan, and what is
/// loaded is the same as without it.
pub proof fn lemma_bad_file_changes_nothing(
    files: Seq<SourceFileView>,
    at: int,
    bad: SourceFileView,
)
    requires
        0 <= at <= files.len(),
        !is_content_name(bad.name) || project_in(bad) is Err,
    ensures
        loaded_projects(files.insert(at, bad)) == loaded_projects(files),
    decreases files.len() - at,
{
    let with = files.insert(at, bad);
    if at == files.len() {
        assert(with.drop_last() == files);
        assert(with.last() == bad);
    } else {
        assert(with.drop_last() == files.drop_last().insert(at, bad));
        assert(with.last() == files.last());
        lemma_bad_file_changes_nothing(files.drop_last(), at, bad);
    }
}

/// The content files of a scan that do not load, each with its fault, in
/// the order of the scan: what a listing passes over, for the log.
pub open spec fn project_failures(files: Seq<SourceFileView>) -> Seq<(Seq<char>, LoadFault)>
    decreases files.len(),
{
    if files.len() == 0 {
        Seq::empty()
    } else {
        let before = project_failures(files.drop_last());
        let file = files.last();
        if is_content_name(file.name) && project_in(file) is Err {
            before.push((file.name, project_in(file)->Err_0))
        } else {
            before
        }
    }
}

/// The listing of a scan: every project that loads, the last updated first.
pub open spec fn project_listing(files: Seq<SourceFileView>) -> Seq<ProjectView> {
    newest_first(loaded_projects(files))
}

/// What the API reports of a project.
pub open spec fn project_response_of(project: ProjectView) -> ProjectResponseView {
    ProjectResponseView {
        id: project.slug,
        name: project.metadata.name,
        description: project.metadata.description,
        html_url: project.metadata.url,
        homepage: project.metadata.homepage,
        language: project.metadata.language,
        stargazers_count: project.metadata.stars,
        forks_count: project.metadata.forks,
        topics: project.metadata.topics,
        updated_at: midnight_text_of(project.metadata.updated_at),
    }
}

/// The map from a project to its value.
pub open spec fn project_view() -> spec_fn(Project) -> ProjectView {
    |project: Project| project.deep_view()
}

/// The map from a project's value to what the API reports of it.
pub open spec fn to_response() -> spec_fn(ProjectView) -> ProjectResponseView {
    |project: ProjectView| project_response_of(project)
}

/// The value of a vector of projects is the vector of their values.
pub proof fn lemma_projects_view(projects: Seq<Project>)
    ensures
        projects.map_values(project_view()) == Seq::new(
            projects.len(),
            |i: int| projects[i].deep_view(),
        ),
{
    assert(projects.map_values(project_view()) =~= Seq::new(
        projects.len(),
        |i: int| projects[i].deep_view(),
    ));
}

impl From<Project> for ProjectResponse {
    /// Turns a project into what the API reports of it.
    fn from(project: Project) -> (r: ProjectResponse)
        ensures
            r.deep_view() == project_response_of(project.deep_view()),
    {
        ProjectResponse {
            id: project.slug,
            name: project.metadata.name,
            description: project.metadata.description,
            html_url: project.metadata.url,
            homepage: project.metadata.homepage,
            language: project.metadata.language,
            stargazers_count: project.metadata.stars,
            forks_count: project.metadata.forks,
            topics: project.metadata.topics,
            updated_at: project.metadata.updated_at.to_rfc3339(),
        }
    }
}

impl FromSpecImpl<Project> for ProjectResponse {
    /// A response holds strings that are made anew, and no spec function
    /// can build one: what `from` returns is stated on `from` itself.
    open spec fn obeys_from_spec() -> bool {
        false
    }

    open spec fn from_spec(project: Project) -> ProjectResponse {
        arbitrary()
    }
}

/// Reads a counter of the header.
fn read_counter(doc: &HeaderValue, key: &str) -> (r: i32)
    ensures
        r == counter_at(doc.deep_view(), key@),
{
    match doc.get_int(key) {
        Some(n) => #[verifier::truncate]
        (n as i32),
        None => 0,
    }
}

/// Reads a string of the header that has a default.
fn read_text_or(doc: &HeaderValue, key: &str, default: &str) -> (r: String)
    ensures
        r@ == text_or(doc.deep_view(), key@, default@),
{
    match doc.get_string(key) {
        Some(text) => text,
        None => String::from_str(default),
    }
}

/// The projects' content repository.
pub struct MarkdownProjectService {
    content_dir: String,
}

impl MarkdownProjectService {
    /// The directory of a service.
    pub closed spec fn dir(&self) -> Seq<char> {
        self.content_dir@
    }

    /// A service on the directory `content/projects`.
    pub fn new() -> (service: Self)
        ensures
            service.dir() == "content/projects"@,
    {
        MarkdownProjectService { content_dir: String::from_str("content/projects") }
    }

    /// The directory that holds the projects' documents.
    pub fn content_dir(&self) -> (dir: &str)
        ensures
            dir@ == self.dir(),
    {
        self.content_dir.as_str()
    }

    /// Reads the fields of a project's header out of the decoded header block.
    pub fn read_header(doc: &HeaderValue) -> (r: Result<ProjectMetadata, HeaderParseError>)
        ensures
            match r {
                Ok(meta) => project_header_of(doc.deep_view()) == Ok::<_, HeaderFault>(
                    meta.deep_view(),
                ),
                Err(e) => project_header_of(doc.deep_view()) == Err::<ProjectHeader, _>(
                    e.deep_view(),
                ),
            },
    {
        let name = match doc.get_string("name") {
            Some(name) => name,
            None => {
                return Err(HeaderParseError::MissingField(String::from_str("name")));
            },
        };
        let description = read_text_or(doc, "description", "");
        let url = match doc.get_string("url") {
            Some(url) => url,
            None => {
                return Err(HeaderParseError::MissingField(String::from_str("url")));
            },
        };
        let language = read_text_or(doc, "language", "Unknown");
        let homepage = doc.get_string("homepage");
        let stars = read_counter(doc, "stars");
        let forks = read_counter(doc, "forks");
        let featured = match doc.get_bool("featured") {
            Some(flag) => flag,
            None => false,
        };
        let status = read_text_or(doc, "status", "active");
        let topics = match doc.get_list_of_string("topics") {
            Some(topics) => topics,
            None => {
                let none: Vec<String> = Vec::new();
                assert(none.deep_view() =~= Seq::<Seq<char>>::empty());
                none
            },
        };
        let created = match doc.get_string("createdAt") {
            Some(created) => created,
            None => {
                return Err(HeaderParseError::MissingField(String::from_str("createdAt")));
            },
        };
        let updated = match doc.get_string("updatedAt") {
            Some(updated) => updated,
            None => {
                return Err(HeaderParseError::MissingField(String::from_str("updatedAt")));
            },
        };
        let created_at = match CalendarDate::parse_from_str(created.as_str(), "%Y-%m-%d") {
            Some(date) => date,
            None => {
                return Err(HeaderParseError::InvalidDate(String::from_str("createdAt"), created));
            },
        };
        let updated_at = match CalendarDate::parse_from_str(updated.as_str(), "%Y-%m-%d") {
            Some(date) => date,
            None => {
                return Err(HeaderParseError::InvalidDate(String::from_str("updatedAt"), updated));
            },
        };
        proof {
            reveal_strlit("");
            assert(""@ =~= Seq::<char>::empty());
        }
        Ok(
            ProjectMetadata {
                name,
                description,
                url,
                homepage,
                language,
                stars,
                forks,
                topics,
                status,
                featured,
                created_at,
                updated_at,
            },
        )
    }

    /// Parses a project's document: splits it, decodes the header block,
    /// reads the header's fields and renders the body.
    pub fn parse_markdown(content: &str) -> (r: Result<
        (ProjectMetadata, String),
        HeaderParseError,
    >)
        ensures
            match r {
                Ok((meta, html)) => parsed_project(content@) == Ok::<_, HeaderFault>(
                    (meta.deep_view(), html@),
                ),
                Err(e) => parsed_project(content@) == Err::<(ProjectHeader, Seq<char>), _>(
                    e.deep_view(),
                ),
            },
    {
        let (block, body) = match split_document(content) {
            Ok(parts) => parts,
            Err(e) => {
                return Err(e);
            },
        };
        let doc = match decode_header(block.as_str()) {
            Ok(doc) => doc,
            Err(e) => {
                return Err(e);
            },
        };
        let meta = match Self::read_header(&doc) {
            Ok(meta) => meta,
            Err(e) => {
                return Err(e);
            },
        };
        let html = render_body(body.as_str());
        Ok((meta, html))
    }

    /// Puts a project together.
    pub fn assemble(slug: String, metadata: ProjectMetadata, html: String) -> (project: Project)
        ensures
            project.deep_view() == project_of(slug@, metadata.deep_view(), html@),
    {
        let mut metadata = metadata;
        let ghost header = metadata.deep_view();
        let description = backfill_description(metadata.description, html.as_str());
        metadata.description = description;
        assert(metadata.deep_view() == (ProjectHeader {
            description: description_or_excerpt(header.description, html@),
            ..header
        }));
        Project { slug, metadata, body_html: html }
    }

    /// Loads the project of `slug` from what reading its file gave.
    pub fn load_project(slug: &str, path: &str, content: &FileContent) -> (r: Result<
        Project,
        LoadError,
    >)
        ensures
            match r {
                Ok(project) => loaded_project(slug@, path@, content.deep_view()) == Ok::<
                    _,
                    LoadFault,
                >(project.deep_view()),
                Err(e) => loaded_project(slug@, path@, content.deep_view()) == Err::<
                    ProjectView,
                    _,
                >(e.deep_view()),
            },
    {
        match content {
            FileContent::Unreadable(cause) => Err(
                LoadError::Io { path: String::from_str(path), cause: cause.clone() },
            ),
            FileContent::Text(text) => match Self::parse_markdown(text.as_str()) {
                Err(e) => Err(LoadError::Parse(e)),
                Ok((metadata, html)) => Ok(Self::assemble(String::from_str(slug), metadata, html)),
            },
        }
    }

    /// Names the content files of a scan that do not load, each with its
    /// error: what a listing passes over.
    pub fn load_failures(files: &Vec<SourceFile>) -> (failures: Vec<(String, LoadError)>)
        ensures
            failures.deep_view() == project_failures(files.deep_view()),
    {
        let mut failures: Vec<(String, LoadError)> = Vec::new();
        let mut i: usize = 0;
        assert(files.deep_view().take(0) == Seq::<SourceFileView>::empty());
        assert(failures.deep_view() =~= Seq::<(Seq<char>, LoadFault)>::empty());
        while i < files.len()
            invariant
                i <= files.len(),
                failures.deep_view() == project_failures(files.deep_view().take(i as int)),
            decreases files.len() - i,
        {
            let ghost before = failures.deep_view();
            let ghost next = files.deep_view().take(i + 1);
            let file = &files[i];
            proof {
                assert(next.drop_last() == files.deep_view().take(i as int));
                assert(next.last() == file.deep_view());
            }
            if is_content_file(file.name.as_str()) {
                let slug = file_stem(file.name.as_str());
                match Self::load_project(slug.as_str(), file.name.as_str(), &file.content) {
                    Ok(_) => {},
                    Err(e) => {
                        let ghost fault = e.deep_view();
                        failures.push((file.name.clone(), e));
                        assert(failures.deep_view() =~= before.push((file.name@, fault)));
                    },
                }
            }
            i = i + 1;
        }
        assert(files.deep_view().take(files.len() as int) == files.deep_view());
        failures
    }

    /// Loads every project of a scan. A file that is no content file is
    /// not looked at, and one that does not load is left out: one bad
    /// document takes nothing else with it.
    pub fn load_all(files: &Vec<SourceFile>) -> (projects: Vec<Project>)
        ensures
            projects.deep_view() == loaded_projects(files.deep_view()),
    {
        let mut projects: Vec<Project> = Vec::new();
        let mut i: usize = 0;
        assert(files.deep_view().take(0) == Seq::<SourceFileView>::empty());
        assert(projects.deep_view() =~= Seq::<ProjectView>::empty());
        while i < files.len()
            invariant
                i <= files.len(),
                projects.deep_view() == loaded_projects(files.deep_view().take(i as int)),
            decreases files.len() - i,
        {
            let ghost before = projects.deep_view();
            let ghost next = files.deep_view().take(i + 1);
            let file = &files[i];
            proof {
                assert(next.drop_last() == files.deep_view().take(i as int));
                assert(next.last() == file.deep_view());
            }
            if is_content_file(file.name.as_str()) {
                let slug = file_stem(file.name.as_str());
                match Self::load_project(slug.as_str(), file.name.as_str(), &file.content) {
                    Ok(project) => {
                        projects.push(project);
                        assert(projects.deep_view() =~= before.push(project.deep_view()));
                    },
                    Err(_) => {},
                }
            }
            i = i + 1;
        }
        assert(files.deep_view().take(files.len() as int) == files.deep_view());
        projects
    }

    /// The listing of a scan: every project that loads, the last updated
    /// first, and among projects of one day in the order of the scan.
    pub fn list_projects(&self, files: &Vec<SourceFile>) -> (out: Vec<Project>)
        ensures
            out.deep_view() == project_listing(files.deep_view()),
            is_newest_first(out.deep_view()),
    {
        let projects = Self::load_all(files);
        let ghost loaded = projects@;
        let out = sort_newest_first(projects);
        proof {
            let f = project_view();
            lemma_projects_view(loaded);
            lemma_projects_view(out@);
            lemma_newest_first_map(loaded, f);
            assert forall|i: int, j: int| 0 <= i < j < out.deep_view().len() implies !date_before(
                #[trigger] out.deep_view()[i].date_key(),
                #[trigger] out.deep_view()[j].date_key(),
            ) by {
                assert(out.deep_view()[i] == out@[i].deep_view());
                assert(out.deep_view()[j] == out@[j].deep_view());
                assert(!date_before(out@[i].date_key(), out@[j].date_key()));
            }
        }
        out
    }

    /// Turns projects into what the API reports of them, one for one.
    pub fn to_responses(projects: Vec<Project>) -> (out: Vec<ProjectResponse>)
        ensures
            out.deep_view() == projects.deep_view().map_values(to_response()),
            out.len() == projects.len(),
    {
        let ghost all = projects.deep_view();
        let mut rest = reversed(projects);
        let mut out: Vec<ProjectResponse> = Vec::new();
        assert(out.deep_view() =~= all.take(0).map_values(to_response()));
        while rest.len() > 0
            invariant
                rest.len() <= all.len(),
                rest.deep_view().len() == rest.len(),
                forall|k: int|
                    0 <= k < rest.len() ==> #[trigger] rest.deep_view()[k] == all[all.len() - 1
                        - k],
                out.deep_view() == all.take(all.len() - rest.len()).map_values(to_response()),
            decreases rest.len(),
        {
            let ghost n = rest.len() as int;
            let ghost before = out.deep_view();
            let ghost rest_before = rest.deep_view();
            let project = rest.pop().unwrap();
            assert(project.deep_view() == rest_before[n - 1]);
            assert forall|k: int| 0 <= k < rest.len() implies #[trigger] rest.deep_view()[k]
                == all[all.len() - 1 - k] by {
                assert(rest.deep_view()[k] == rest_before[k]);
            }
            let response = ProjectResponse::from(project);
            out.push(response);
            assert(out.deep_view() =~= before.push(response.deep_view()));
            assert(out.deep_view() =~= all.take(all.len() - rest.len()).map_values(to_response()));
        }
        assert(all.take(all.len() as int) == all);
        out
    }

    /// Every project, as the API reports it: the last updated first.
    pub fn get_all_projects(&self, files: &Vec<SourceFile>) -> (out: Vec<ProjectResponse>)
        ensures
            out.deep_view() == project_listing(files.deep_view()).map_values(to_response()),
    {
        let projects = self.list_projects(files);
        Self::to_responses(projects)
    }

    /// The project of a slug. `found` is what looking for the slug's file
    /// gave: `None` where there is no such file, and then there is no such
    /// project, which is no error. A file that is there and does not load
    /// is an error: who asks for one project is told why it cannot be had.
    pub fn get_project_by_slug(&self, slug: &str, found: Option<FileContent>) -> (r: Result<
        Option<ProjectResponse>,
        LoadError,
    >)
        ensures
            match found {
                None => r matches Ok(None),
                Some(content) => match loaded_project(
                    slug@,
                    content_name_of(slug@),
                    content.deep_view(),
                ) {
                    Ok(project) => r matches Ok(Some(p)) && p.deep_view() == project_response_of(
                        project,
                    ),
                    Err(fault) => r matches Err(e) && e.deep_view() == fault,
                },
            },
    {
        match found {
            None => Ok(None),
            Some(content) => {
                let path = content_file_name(slug);
                match Self::load_project(slug, path.as_str(), &content) {
                    Ok(project) => Ok(Some(ProjectResponse::from(project))),
                    Err(e) => Err(e),
                }
            },
        }
    }

    /// The featured projects: the first three of the listing. The header's
    /// own flag is not looked at.
    pub fn get_featured_projects(&self, files: &Vec<SourceFile>) -> (out: Vec<ProjectResponse>)
        ensures
            out.deep_view() == page_of(project_listing(files.deep_view()), 1, 3).map_values(
                to_response(),
            ),
            out.len() <= 3,
    {
        let projects = self.list_projects(files);
        let ghost listing = projects@;
        let first = paginate(projects, 1, 3);
        proof {
            let f = project_view();
            lemma_projects_view(listing);
            lemma_projects_view(first@);
            lemma_page_of_map(listing, f, 1, 3);
        }
        Self::to_responses(first)
    }
}

impl ProjectService for MarkdownProjectService {
    fn get_all_projects(&self, files: &Vec<SourceFile>) -> (out: Vec<ProjectResponse>)
        ensures
            out.deep_view() == project_listing(files.deep_view()).map_values(to_response()),
    {
        MarkdownProjectService::get_all_projects(self, files)
    }

    fn get_project_by_slug(&self, slug: &str, found: Option<FileContent>) -> (r: Result<
        Option<ProjectResponse>,
        LoadError,
    >)
        ensures
            match found {
                None => r matches Ok(None),
                Some(content) => match loaded_project(
                    slug@,
                    content_name_of(slug@),
                    content.deep_view(),
                ) {
                    Ok(project) => r matches Ok(Some(p)) && p.deep_view() == project_response_of(
                        project,
                    ),
                    Err(fault) => r matches Err(e) && e.deep_view() == fault,
                },
            },
    {
        MarkdownProjectService::get_project_by_slug(self, slug, found)
    }

    fn get_featured_projects(&self, files: &Vec<SourceFile>) -> (out: Vec<ProjectResponse>)
        ensures
            out.deep_view() == page_of(project_listing(files.deep_view()), 1, 3).map_values(
                to_response(),
            ),
    {
        MarkdownProjectService::get_featured_projects(self, files)
    }
}

} // verus!
