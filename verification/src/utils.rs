//! Small helpers on text, the choice of the cache directory, and the
//! download of the lookup table from the file-sharing host that keeps it.

use scraper::{Html, Selector};
use vstd::prelude::*;
use vstd::std_specs::iter::IteratorSpec;
use vstd::string::StringExecFns;

verus! {

/// The words by which the host's page that asks for confirmation is told
/// from the file itself.
pub const SCAN_WARNING: &'static str = "Google Drive can't scan this file for viruses";

/// Selects the form that confirms the download.
pub const FORM_SELECTOR: &'static str = "form#download-form";

/// Selects, inside the form, the inputs that carry a name.
pub const INPUT_SELECTOR: &'static str = "input[name]";

/// The characters of an optional string.
pub open spec fn text_of(value: Option<String>) -> Option<Seq<char>> {
    match value {
        Some(s) => Some(s@),
        None => None,
    }
}

/// The rest of `text` behind `prefix`, or `None` when `text` does not start
/// with `prefix`.
pub fn strip_prefix<'a>(text: &'a str, prefix: &str) -> (rest: Option<&'a str>)
    ensures
        rest is Some <==> prefix@.is_prefix_of(text@),
        rest matches Some(r) ==> r@ == text@.skip(prefix@.len() as int),
{
    let n: usize = text.unicode_len();
    let m: usize = prefix.unicode_len();
    if m > n {
        return None;
    }
    let head = text.substring_char(0, m);
    if head.to_owned() == prefix.to_owned() {
        Some(text.substring_char(m, n))
    } else {
        None
    }
}

/// Whether `part` stands somewhere in `text`, character for character.
pub open spec fn occurs_in(part: Seq<char>, text: Seq<char>) -> bool {
    exists|i: int|
        0 <= i && i + part.len() <= text.len() && #[trigger] text.subrange(
            i,
            i + part.len(),
        ) == part
}

/// The characters of `text`, one by one.
fn chars_of(text: &str) -> (chars: Vec<char>)
    ensures
        chars@ == text@,
{
    broadcast use vstd::string::group_string_axioms;

    let mut chars: Vec<char> = Vec::new();
    let mut rest = text.chars();
    loop
        invariant
            rest.obeys_prophetic_iter_laws(),
            chars@ + rest.remaining() == text@,
        ensures
            chars@ == text@,
        decreases text@.len() - chars@.len(),
    {
        match rest.next() {
            Some(c) => {
                chars.push(c);
            },
            None => {
                break ;
            },
        }
    }
    chars
}

/// Whether `part` stands in `text` at the position `at`.
fn stands_at(text: &Vec<char>, part: &Vec<char>, at: usize) -> (found: bool)
    requires
        at + part.len() <= text.len(),
    ensures
        found == (text@.subrange(at as int, at + part.len()) == part@),
{
    let mut k: usize = 0;
    while k < part.len()
        invariant
            k <= part.len(),
            at + part.len() <= text.len(),
            forall|j: int| 0 <= j < k ==> text[at + j] == part[j],
        decreases part.len() - k,
    {
        if text[at + k] != part[k] {
            return false;
        }
        k += 1;
    }
    assert(text@.subrange(at as int, at + part.len()) =~= part@);
    true
}

/// Whether `part` stands somewhere in `text`. The empty text stands
/// everywhere.
pub fn contains(text: &str, part: &str) -> (found: bool)
    ensures
        found == occurs_in(part@, text@),
{
    let hay = chars_of(text);
    let needle = chars_of(part);
    if needle.len() > hay.len() {
        return false;
    }
    if needle.len() == 0 {
        assert(text@.subrange(0int, 0int + part@.len()) =~= part@);
        return true;
    }
    let last: usize = hay.len() - needle.len();
    let mut at: usize = 0;
    while at <= last
        invariant
            at <= last + 1,
            last == hay.len() - needle.len(),
            0 < needle.len() <= hay.len(),
            hay@ == text@,
            needle@ == part@,
            forall|i: int| 0 <= i < at ==> #[trigger] hay@.subrange(i, i + needle.len()) != needle@,
        decreases last + 1 - at,
    {
        if stands_at(&hay, &needle, at) {
            return true;
        }
        at += 1;
    }
    false
}

/// `dir` and `name` as one path: `name` alone when `dir` is empty, else
/// `dir`, a `/` unless `dir` ends with one, and `name`.
pub open spec fn joined_path(dir: Seq<char>, name: Seq<char>) -> Seq<char> {
    if dir.len() == 0 {
        name
    } else if dir.last() == '/' {
        dir + name
    } else {
        dir + "/"@ + name
    }
}

/// The path of the file `name` inside the directory `dir`.
pub fn join_path(dir: &str, name: &str) -> (path: String)
    ensures
        path@ == joined_path(dir@, name@),
{
    let n: usize = dir.unicode_len();
    if n == 0 {
        String::from_str(name)
    } else if dir.get_char(n - 1) == '/' {
        String::from_str(dir).concat(name)
    } else {
        String::from_str(dir).concat("/").concat(name)
    }
}

/// The name of the cache directory under the user's home.
pub const CACHE_NAME: &'static str = ".pineapple_cache";

/// The cache directory that is used when nothing else is known.
pub const ROOT_CACHE: &'static str = "/.pineapple_cache";

/// The directory of the cache: the one that is named, if the name is not
/// empty; else [`CACHE_NAME`] under the home directory, if that is known;
/// else [`ROOT_CACHE`].
pub open spec fn cache_path(named: Option<Seq<char>>, home: Option<Seq<char>>) -> Seq<char> {
    match named {
        Some(n) if n.len() > 0 => n,
        _ => match home {
            Some(h) => joined_path(h, CACHE_NAME@),
            None => ROOT_CACHE@,
        },
    }
}

/// The characters of an optional borrowed string.
pub open spec fn str_of(value: Option<&str>) -> Option<Seq<char>> {
    match value {
        Some(s) => Some(s@),
        None => None,
    }
}

/// Finds the directory of the cache.
///
/// `named` is what the environment gives as the cache directory, if it
/// gives anything; `home` is the user's home directory, if it is known. A
/// name that is not empty wins; without one the cache lies under the home
/// directory, and under the root where no home is known.
pub fn get_pineapple_cache(named: Option<&str>, home: Option<&str>) -> (path: String)
    ensures
        path@ == cache_path(str_of(named), str_of(home)),
{
    match named {
        Some(n) => {
            if !n.is_empty() {
                return String::from_str(n);
            }
        },
        None => {},
    }
    match home {
        Some(h) => join_path(h, CACHE_NAME),
        None => String::from_str(ROOT_CACHE),
    }
}

/// Why the table could not be obtained.
#[derive(Clone, Copy, Debug, PartialEq, Eq, Structural)]
pub enum FetchError {
    /// A request was not answered, or was answered with an error.
    Request,
    /// The page that asks for confirmation holds no download form.
    NoForm,
    /// The download form names no address to send it to.
    NoAction,
    /// The host announced no content, so the download could not start.
    NotStarted,
    /// The content broke off, or the file could not be written.
    Io,
}

impl FetchError {
    /// What the user is told.
    pub open spec fn text(self) -> Seq<char> {
        match self {
            FetchError::Request => "Failed to send download request"@,
            FetchError::NoForm => "Download form not found in the HTML"@,
            FetchError::NoAction => "No form action found"@,
            FetchError::NotStarted => "Download could not be started. Please check connection and try again."@,
            FetchError::Io => "Failed to write chunk to file"@,
        }
    }

    /// What the user is told.
    pub fn message(&self) -> (text: &'static str)
        ensures
            text@ == self.text(),
    {
        match self {
            FetchError::Request => "Failed to send download request",
            FetchError::NoForm => "Download form not found in the HTML",
            FetchError::NoAction => "No form action found",
            FetchError::NotStarted => "Download could not be started. Please check connection and try again.",
            FetchError::Io => "Failed to write chunk to file",
        }
    }
}

/// One input of a form: its name and its value, as far as it has them.
#[derive(Debug)]
pub struct FormInput {
    pub name: Option<String>,
    pub value: Option<String>,
}

/// A form of a page: the address it is sent to, if it names one, and its
/// inputs in the order of the page.
#[derive(Debug)]
pub struct DownloadForm {
    pub action: Option<String>,
    pub inputs: Vec<FormInput>,
}

/// The mathematical value of a [`FormInput`].
pub struct Field {
    pub name: Option<Seq<char>>,
    pub value: Option<Seq<char>>,
}

/// The mathematical value of a [`DownloadForm`].
pub struct Form {
    pub action: Option<Seq<char>>,
    pub inputs: Seq<Field>,
}

impl View for FormInput {
    type V = Field;

    open spec fn view(&self) -> Field {
        Field { name: text_of(self.name), value: text_of(self.value) }
    }
}

impl View for DownloadForm {
    type V = Form;

    open spec fn view(&self) -> Form {
        Form {
            action: text_of(self.action),
            inputs: self.inputs@.map_values(|input: FormInput| input@),
        }
    }
}

/// What `scraper` finds in the page `body`: the first element that the
/// selector `form` matches, with its attribute `action`, and below it the
/// elements that the selector `input` matches, in the order of the page,
/// each with its attributes `name` and `value`. Nothing when no element
/// matches `form` or a selector does not parse.
pub uninterp spec fn scraped_form(
    body: Seq<char>,
    form: Seq<char>,
    action: Seq<char>,
    input: Seq<char>,
    name: Seq<char>,
    value: Seq<char>,
) -> Option<Form>;

/// Reads a form out of a page.
///
/// Calls `scraper::Html::parse_document` on `body`, takes the first
/// element that `Html::select` yields for the selector `form`, and reads
/// attributes with `Element::attr`: `action` of that element, `name` and
/// `value` of each element that `ElementRef::select` yields below it for
/// the selector `input`. Nothing is proved of the parsing or the
/// matching: the contract only names what these calls yield.
#[verifier::external_body]
fn scrape_form(body: &str, form: &str, action: &str, input: &str, name: &str, value: &str) -> (found:
    Option<DownloadForm>)
    ensures
        match found {
            Some(f) => scraped_form(body@, form@, action@, input@, name@, value@) == Some(f@),
            None => scraped_form(body@, form@, action@, input@, name@, value@) is None,
        },
{
    let form = Selector::parse(form).ok()?;
    let input = Selector::parse(input).ok()?;
    let document = Html::parse_document(body);
    let element = document.select(&form).next()?;
    let inputs = element.select(&input).map(
        |i| FormInput {
            name: i.value().attr(name).map(String::from),
            value: i.value().attr(value).map(String::from),
        },
    ).collect();
    Some(DownloadForm { action: element.value().attr(action).map(String::from), inputs })
}

/// What an input adds to the address: `name=value`, both verbatim, when it
/// has both; nothing otherwise.
pub open spec fn pair_of(input: Field) -> Option<Seq<char>> {
    match (input.name, input.value) {
        (Some(n), Some(v)) => Some(n + "="@ + v),
        _ => None,
    }
}

/// The parts in their order, with `sep` between each two.
pub open spec fn joined(parts: Seq<Seq<char>>, sep: Seq<char>) -> Seq<char>
    decreases parts.len(),
{
    if parts.len() == 0 {
        Seq::empty()
    } else if parts.len() == 1 {
        parts[0]
    } else {
        joined(parts.drop_last(), sep) + sep + parts.last()
    }
}

/// The query of the confirmed address: the pairs of all inputs that have a
/// name and a value, in the order of the page, with `&` between them.
pub open spec fn query_of(inputs: Seq<Field>) -> Seq<char> {
    joined(inputs.filter_map(|input: Field| pair_of(input)), "&"@)
}

/// The address that confirms the download, made from what was found in the
/// page: the form's action, `?`, and the query. Nothing is encoded.
pub open spec fn confirmed(found: Option<Form>) -> Result<Seq<char>, FetchError> {
    match found {
        None => Err(FetchError::NoForm),
        Some(form) => match form.action {
            None => Err(FetchError::NoAction),
            Some(action) => Ok(action + "?"@ + query_of(form.inputs)),
        },
    }
}

/// The address to fetch the file from, given the address first asked and
/// the page that came back: the confirmed address when the page is the
/// host's warning, the first address otherwise.
pub open spec fn resolved(url: Seq<char>, body: Seq<char>) -> Result<Seq<char>, FetchError> {
    if occurs_in(SCAN_WARNING@, body) {
        confirmed(
            scraped_form(
                body,
                FORM_SELECTOR@,
                "action"@,
                INPUT_SELECTOR@,
                "name"@,
                "value"@,
            ),
        )
    } else {
        Ok(url)
    }
}

/// The characters of an address, or the error in its place.
pub open spec fn address_of(made: Result<String, FetchError>) -> Result<Seq<char>, FetchError> {
    match made {
        Ok(url) => Ok(url@),
        Err(e) => Err(e),
    }
}

/// The query that the inputs of a form make.
fn query_string(inputs: &Vec<FormInput>) -> (query: String)
    ensures
        query@ == query_of(inputs@.map_values(|input: FormInput| input@)),
{
    let ghost fields = inputs@.map_values(|input: FormInput| input@);
    let ghost pick = |input: Field| pair_of(input);
    let mut query = String::new();
    let mut empty = true;
    let mut i: usize = 0;
    while i < inputs.len()
        invariant
            i <= inputs.len(),
            fields == inputs@.map_values(|input: FormInput| input@),
            pick == |input: Field| pair_of(input),
            empty <==> fields.take(i as int).filter_map(pick).len() == 0,
            query@ == joined(fields.take(i as int).filter_map(pick), "&"@),
        decreases inputs.len() - i,
    {
        let ghost before = fields.take(i as int).filter_map(pick);
        proof {
            assert(fields.take(i + 1).drop_last() =~= fields.take(i as int));
        }
        let input = &inputs[i];
        match (&input.name, &input.value) {
            (Some(n), Some(v)) => {
                let ghost pair = n@ + "="@ + v@;
                assert((before + seq![pair]).drop_last() =~= before);
                if !empty {
                    query.append("&");
                }
                query.append(n.as_str());
                query.append("=");
                query.append(v.as_str());
                empty = false;
            },
            _ => {},
        }
        i += 1;
    }
    assert(fields.take(inputs.len() as int) =~= fields);
    query
}

/// Makes the address that confirms the download from a form: its action,
/// `?`, and `name=value` for each input that has both, with `&` between.
/// Names and values are put in as they are; nothing is encoded.
pub fn confirmed_url(found: Option<DownloadForm>) -> (made: Result<String, FetchError>)
    ensures
        address_of(made) == confirmed(
            match found {
                Some(f) => Some(f@),
                None => None,
            },
        ),
{
    match found {
        None => Err(FetchError::NoForm),
        Some(form) => match &form.action {
            None => Err(FetchError::NoAction),
            Some(action) => {
                let query = query_string(&form.inputs);
                Ok(action.clone().concat("?").concat(query.as_str()))
            },
        },
    }
}

/// Finds the download form in the host's warning page and makes the
/// address that confirms the download.
pub fn extract_download_url(body: &str) -> (made: Result<String, FetchError>)
    ensures
        address_of(made) == confirmed(
            scraped_form(
                body@,
                FORM_SELECTOR@,
                "action"@,
                INPUT_SELECTOR@,
                "name"@,
                "value"@,
            ),
        ),
{
    confirmed_url(scrape_form(body, FORM_SELECTOR, "action", INPUT_SELECTOR, "name", "value"))
}

/// Decides which address the file is fetched from, once the answer to the
/// first request is there: the host's warning page leads to the confirmed
/// address, anything else leaves the first address in place.
pub fn handle_virus_scan_warning(url: &str, body: &str) -> (made: Result<String, FetchError>)
    ensures
        address_of(made) == resolved(url@, body@),
{
    if contains(body, SCAN_WARNING) {
        extract_download_url(body)
    } else {
        Ok(String::from_str(url))
    }
}

/// How far the download of the table has come.
#[derive(Clone, Copy, Debug, PartialEq, Eq, Structural)]
pub enum Stage {
    /// The first request is due; its answer decides the address.
    Probing,
    /// The address is settled and the request for the file is due.
    Opening,
    /// The file is coming in, chunk by chunk.
    Streaming,
    /// The whole file is written.
    Done,
    /// The download has failed. No layer tries it again.
    Failed(FetchError),
}

/// The mathematical value of a [`GdriveDownload`].
pub struct Transfer {
    /// Where the download stands.
    pub stage: Stage,
    /// The address of the request that is due or under way.
    pub url: Seq<char>,
    /// The directory the file is written to.
    pub output_dir: Seq<char>,
    /// The name the file is written under.
    pub filename: Seq<char>,
    /// Whether progress is kept from the user.
    pub silent: bool,
    /// The size that the host announced, in bytes.
    pub total: nat,
    /// The bytes written so far.
    pub written: nat,
}

/// The address of the first request for the file `file_id`.
pub open spec fn first_url(file_id: Seq<char>) -> Seq<char> {
    "https://drive.google.com/uc?id="@ + file_id + "&export=download"@
}

impl Transfer {
    /// The download before anything was requested.
    pub open spec fn begin(
        file_id: Seq<char>,
        output_dir: Seq<char>,
        filename: Seq<char>,
        silent: bool,
    ) -> Transfer {
        Transfer {
            stage: Stage::Probing,
            url: first_url(file_id),
            output_dir,
            filename,
            silent,
            total: 0,
            written: 0,
        }
    }

    /// Whether the download is over, for better or worse.
    pub open spec fn over(self) -> bool {
        self.stage == Stage::Done || self.stage is Failed
    }

    /// After the answer to the first request has come as the page `body`.
    pub open spec fn after_page(self, body: Seq<char>) -> Transfer {
        if self.stage != Stage::Probing {
            self
        } else {
            match resolved(self.url, body) {
                Ok(url) => Transfer { stage: Stage::Opening, url, ..self },
                Err(e) => Transfer { stage: Stage::Failed(e), ..self },
            }
        }
    }

    /// After the host has answered the request for the file and announced
    /// `length` bytes. No announcement counts as none; with none the
    /// download cannot start.
    pub open spec fn after_opened(self, length: Option<u64>) -> Transfer {
        if self.stage != Stage::Opening {
            self
        } else {
            match length {
                Some(n) if n > 0 => Transfer {
                    stage: Stage::Streaming,
                    total: n as nat,
                    written: 0,
                    ..self
                },
                _ => Transfer { stage: Stage::Failed(FetchError::NotStarted), ..self },
            }
        }
    }

    /// After a chunk of `len` bytes has been written to the file.
    pub open spec fn after_chunk(self, len: nat) -> Transfer {
        if self.stage != Stage::Streaming {
            self
        } else {
            Transfer { written: self.written + len, ..self }
        }
    }

    /// After the content has come to its end.
    pub open spec fn after_end(self) -> Transfer {
        if self.stage != Stage::Streaming {
            self
        } else {
            Transfer { stage: Stage::Done, ..self }
        }
    }

    /// After a request or the file system has failed with `error`.
    pub open spec fn after_failure(self, error: FetchError) -> Transfer {
        if self.over() {
            self
        } else {
            Transfer { stage: Stage::Failed(error), ..self }
        }
    }
}

/// The sum of the lengths of a run of chunks.
pub open spec fn total_len(chunks: Seq<nat>) -> nat
    decreases chunks.len(),
{
    if chunks.len() == 0 {
        0
    } else {
        total_len(chunks.drop_last()) + chunks.last()
    }
}

impl Transfer {
    /// After each of `chunks`, in their order, has been written.
    pub open spec fn after_chunks(self, chunks: Seq<nat>) -> Transfer
        decreases chunks.len(),
    {
        if chunks.len() == 0 {
            self
        } else {
            self.after_chunks(chunks.drop_last()).after_chunk(chunks.last())
        }
    }
}

/// While the file comes in, the bytes written are the bytes of all chunks
/// so far, and nothing else about the download changes.
pub proof fn lemma_written_is_cumulative(t: Transfer, chunks: Seq<nat>)
    requires
        t.stage == Stage::Streaming,
    ensures
        t.after_chunks(chunks) == (Transfer { written: t.written + total_len(chunks), ..t }),
    decreases chunks.len(),
{
    if chunks.len() > 0 {
        lemma_written_is_cumulative(t, chunks.drop_last());
    }
}

/// A download that is over stays as it is, whatever is reported to it:
/// a failure is final, and nothing is tried again.
pub proof fn lemma_over_is_final(
    t: Transfer,
    body: Seq<char>,
    length: Option<u64>,
    len: nat,
    error: FetchError,
)
    requires
        t.over(),
    ensures
        t.after_page(body) == t,
        t.after_opened(length) == t,
        t.after_chunk(len) == t,
        t.after_end() == t,
        t.after_failure(error) == t,
{
}

/// The download of one file from the file-sharing host, as far as it has
/// come. The caller sends the requests and writes the file; each method
/// takes what happened and moves the download on.
#[derive(Debug)]
pub struct GdriveDownload {
    stage: Stage,
    url: String,
    output_dir: String,
    filename: String,
    silent: bool,
    total: u64,
    written: u64,
}

impl View for GdriveDownload {
    type V = Transfer;

    closed spec fn view(&self) -> Transfer {
        Transfer {
            stage: self.stage,
            url: self.url@,
            output_dir: self.output_dir@,
            filename: self.filename@,
            silent: self.silent,
            total: self.total as nat,
            written: self.written as nat,
        }
    }
}

/// Begins the download of the file `file_id` into `output_dir` under the
/// name `filename`. Nothing is requested yet: the first request goes to
/// the host's address for direct downloads.
pub fn download_gdrive_file(file_id: &str, output_dir: &str, filename: &str, silent: bool) -> (begun:
    GdriveDownload)
    ensures
        begun@ == Transfer::begin(file_id@, output_dir@, filename@, silent),
{
    GdriveDownload {
        stage: Stage::Probing,
        url: String::from_str("https://drive.google.com/uc?id=").concat(file_id).concat(
            "&export=download",
        ),
        output_dir: String::from_str(output_dir),
        filename: String::from_str(filename),
        silent,
        total: 0,
        written: 0,
    }
}

impl GdriveDownload {
    /// How far the download has come.
    pub fn stage(&self) -> (stage: Stage)
        ensures
            stage == self@.stage,
    {
        self.stage
    }

    /// The address of the request that is due or under way.
    pub fn url(&self) -> (url: &str)
        ensures
            url@ == self@.url,
    {
        self.url.as_str()
    }

    /// The directory the file is written to.
    pub fn output_dir(&self) -> (dir: &str)
        ensures
            dir@ == self@.output_dir,
    {
        self.output_dir.as_str()
    }

    /// The name the file is written under.
    pub fn filename(&self) -> (name: &str)
        ensures
            name@ == self@.filename,
    {
        self.filename.as_str()
    }

    /// Whether progress is kept from the user.
    pub fn silent(&self) -> (silent: bool)
        ensures
            silent == self@.silent,
    {
        self.silent
    }

    /// The size that the host announced, in bytes.
    pub fn total(&self) -> (total: u64)
        ensures
            total == self@.total,
    {
        self.total
    }

    /// The bytes written so far.
    pub fn written(&self) -> (written: u64)
        ensures
            written == self@.written,
    {
        self.written
    }

    /// Takes the page that answered the first request and settles the
    /// address of the file: see [`resolved`]. A page without the form it
    /// should hold ends the download.
    pub fn page(&mut self, body: &str) -> (stage: Stage)
        ensures
            final(self)@ == old(self)@.after_page(body@),
            stage == final(self)@.stage,
    {
        match self.stage {
            Stage::Probing => {
                match handle_virus_scan_warning(self.url.as_str(), body) {
                    Ok(url) => {
                        self.url = url;
                        self.stage = Stage::Opening;
                    },
                    Err(e) => {
                        self.stage = Stage::Failed(e);
                    },
                }
            },
            _ => {},
        }
        self.stage
    }

    /// Takes the size that the host announced for the file. Without an
    /// announcement, or with one of zero bytes, the download cannot start
    /// and ends as [`FetchError::NotStarted`].
    pub fn opened(&mut self, length: Option<u64>) -> (stage: Stage)
        ensures
            final(self)@ == old(self)@.after_opened(length),
            stage == final(self)@.stage,
    {
        match self.stage {
            Stage::Opening => {
                let total: u64 = match length {
                    Some(n) => n,
                    None => 0,
                };
                if total == 0 {
                    self.stage = Stage::Failed(FetchError::NotStarted);
                } else {
                    self.total = total;
                    self.written = 0;
                    self.stage = Stage::Streaming;
                }
            },
            _ => {},
        }
        self.stage
    }

    /// Takes note of a chunk of `len` bytes that was written to the file
    /// and hands back the bytes written in all.
    pub fn chunk(&mut self, len: usize) -> (written: u64)
        requires
            old(self)@.written + len <= u64::MAX,
        ensures
            final(self)@ == old(self)@.after_chunk(len as nat),
            written == final(self)@.written,
    {
        match self.stage {
            Stage::Streaming => {
                self.written = self.written + len as u64;
            },
            _ => {},
        }
        self.written
    }

    /// Takes note that the content has come to its end.
    pub fn finished(&mut self) -> (stage: Stage)
        ensures
            final(self)@ == old(self)@.after_end(),
            stage == final(self)@.stage,
    {
        match self.stage {
            Stage::Streaming => {
                self.stage = Stage::Done;
            },
            _ => {},
        }
        self.stage
    }

    /// Takes note that a request or the file system has failed. This ends
    /// the download, unless it was over already.
    pub fn failed(&mut self, error: FetchError) -> (stage: Stage)
        ensures
            final(self)@ == old(self)@.after_failure(error),
            stage == final(self)@.stage,
    {
        match self.stage {
            Stage::Done => {},
            Stage::Failed(_) => {},
            _ => {
                self.stage = Stage::Failed(error);
            },
        }
        self.stage
    }
}

} // verus!
