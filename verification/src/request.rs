//! What the options of a run ask of each request: the headers that the
//! client sends with every request, and the steps that give a request its
//! body. Building and sending the request stay with the caller.

use crate::arg::{split_at_colon, split_pair, Arg};
use vstd::prelude::*;

verus! {

/// Whether `c` is white space: a character with the Unicode property
/// White_Space, which are the tab, the line and page breaks, the blank and
/// the blanks of other widths.
pub open spec fn is_white_space(c: char) -> bool {
    let code = c as u32;
    ||| 0x09 <= code <= 0x0d
    ||| code == 0x20
    ||| code == 0x85
    ||| code == 0xa0
    ||| code == 0x1680
    ||| 0x2000 <= code <= 0x200a
    ||| code == 0x2028
    ||| code == 0x2029
    ||| code == 0x202f
    ||| code == 0x205f
    ||| code == 0x3000
}

/// `text` without the white space at its start.
pub open spec fn trimmed_start(text: Seq<char>) -> Seq<char>
    decreases text.len(),
{
    if text.len() > 0 && is_white_space(text[0]) {
        trimmed_start(text.drop_first())
    } else {
        text
    }
}

/// `text` without the white space at its end.
pub open spec fn trimmed_end(text: Seq<char>) -> Seq<char>
    decreases text.len(),
{
    if text.len() > 0 && is_white_space(text.last()) {
        trimmed_end(text.drop_last())
    } else {
        text
    }
}

/// `text` without the white space at its two ends.
pub open spec fn trimmed(text: Seq<char>) -> Seq<char> {
    trimmed_end(trimmed_start(text))
}

/// The type of the media type that the extension of `path` suggests, such as
/// `text`.
pub uninterp spec fn guessed_type(path: Seq<char>) -> Seq<char>;

/// The subtype of the media type that the extension of `path` suggests, such
/// as `plain`.
pub uninterp spec fn guessed_subtype(path: Seq<char>) -> Seq<char>;

/// The media type that the extension of `path` suggests, as its type, a slash
/// and its subtype.
pub open spec fn guessed_mime(path: Seq<char>) -> Seq<char> {
    guessed_type(path) + "/"@ + guessed_subtype(path)
}

/// `mime::Mime::type_` of `mime_guess::from_path` with
/// `MimeGuess::first_or_octet_stream`: the type of the first media type on
/// record for the extension of `path`, or of `application/octet-stream` where
/// there is none. The file itself is not looked at.
#[verifier::external_body]
fn mime_type(path: &str) -> (name: String)
    ensures
        name@ == guessed_type(path@),
{
    mime_guess::from_path(path).first_or_octet_stream().type_().as_str().to_owned()
}

/// `mime::Mime::subtype` of `mime_guess::from_path` with
/// `MimeGuess::first_or_octet_stream`: the subtype of the first media type on
/// record for the extension of `path`, or of `application/octet-stream` where
/// there is none. The file itself is not looked at.
#[verifier::external_body]
fn mime_subtype(path: &str) -> (name: String)
    ensures
        name@ == guessed_subtype(path@),
{
    mime_guess::from_path(path).first_or_octet_stream().subtype().as_str().to_owned()
}

/// A name with its value, as values.
pub type Pair = (Seq<char>, Seq<char>);

/// The name and the value in `text`: what stands before and behind the first
/// `:` once the white space at the two ends is cut.
pub open spec fn pair_of(text: Seq<char>) -> Option<Pair> {
    split_at_colon(trimmed(text))
}

/// The names and values in `items`, in their order; an item without `:` is
/// passed over.
pub open spec fn pairs_of(items: Seq<Seq<char>>) -> Seq<Pair>
    decreases items.len(),
{
    if items.len() == 0 {
        Seq::empty()
    } else {
        let before = pairs_of(items.drop_last());
        match pair_of(items.last()) {
            Some(pair) => before.push(pair),
            None => before,
        }
    }
}

/// Texts as values.
pub open spec fn texts(items: Seq<String>) -> Seq<Seq<char>> {
    Seq::new(items.len(), |i: int| items[i]@)
}

/// Names with values as values.
pub open spec fn pair_views(pairs: Seq<(String, String)>) -> Seq<Pair> {
    Seq::new(pairs.len(), |i: int| (pairs[i].0@, pairs[i].1@))
}

/// A text as a value, if there is one.
pub open spec fn text_view(text: Option<String>) -> Option<Seq<char>> {
    match text {
        Some(t) => Some(t@),
        None => None,
    }
}

/// A file of a multipart body, as a value.
pub struct FilePartView {
    pub name: Seq<char>,
    pub path: Seq<char>,
    pub mime: Seq<char>,
}

/// A file of a multipart body.
pub struct FilePart {
    /// The name of the part, which is also sent as the name of the file.
    pub name: String,
    /// Where the file lies.
    pub path: String,
    /// The media type of the part.
    pub mime: String,
}

impl View for FilePart {
    type V = FilePartView;

    open spec fn view(&self) -> FilePartView {
        FilePartView { name: self.name@, path: self.path@, mime: self.mime@ }
    }
}

/// One step in giving a request its body, as a value.
pub enum BodyStepView {
    Text(Seq<char>),
    TextFile(Seq<char>),
    Form(Seq<Pair>),
    Json(Seq<char>),
    JsonFile(Seq<char>),
    Multipart { fields: Seq<Pair>, files: Seq<FilePartView> },
}

/// One step in giving a request its body. A later step replaces the body of
/// an earlier one.
pub enum BodyStep {
    /// The text is the body, as plain text.
    Text(String),
    /// The file at the path is the body, as plain text.
    TextFile(String),
    /// The fields are the body, as a form.
    Form(Vec<(String, String)>),
    /// The text is the body, as JSON.
    Json(String),
    /// The file at the path is the body, as JSON.
    JsonFile(String),
    /// The fields and the files are the parts of a multipart body.
    Multipart { fields: Vec<(String, String)>, files: Vec<FilePart> },
}

/// The files of a multipart body as values.
pub open spec fn file_views(files: Seq<FilePart>) -> Seq<FilePartView> {
    Seq::new(files.len(), |i: int| files[i]@)
}

impl View for BodyStep {
    type V = BodyStepView;

    open spec fn view(&self) -> BodyStepView {
        match self {
            BodyStep::Text(text) => BodyStepView::Text(text@),
            BodyStep::TextFile(path) => BodyStepView::TextFile(path@),
            BodyStep::Form(fields) => BodyStepView::Form(pair_views(fields@)),
            BodyStep::Json(text) => BodyStepView::Json(text@),
            BodyStep::JsonFile(path) => BodyStepView::JsonFile(path@),
            BodyStep::Multipart { fields, files } => BodyStepView::Multipart {
                fields: pair_views(fields@),
                files: file_views(files@),
            },
        }
    }
}

/// The steps as values.
pub open spec fn step_views(steps: Seq<BodyStep>) -> Seq<BodyStepView> {
    Seq::new(steps.len(), |i: int| steps[i]@)
}

/// The content type that goes with a body of plain text.
pub open spec fn text_content_type() -> Seq<char> {
    "text/plain; charset=UTF-8"@
}

/// The content type that goes with a body of JSON.
pub open spec fn json_content_type() -> Seq<char> {
    "application/json; charset=UTF-8"@
}

/// The content type that a step sets; a form and a multipart body bring
/// their own.
pub open spec fn content_type_of(step: BodyStepView) -> Option<Seq<char>> {
    match step {
        BodyStepView::Text(_) => Some(text_content_type()),
        BodyStepView::TextFile(_) => Some(text_content_type()),
        BodyStepView::Json(_) => Some(json_content_type()),
        BodyStepView::JsonFile(_) => Some(json_content_type()),
        BodyStepView::Form(_) => None,
        BodyStepView::Multipart { .. } => None,
    }
}

/// The files with the media type that the extension of each suggests.
pub open spec fn parts_of(files: Seq<(String, String)>) -> Seq<FilePartView> {
    Seq::new(
        files.len(),
        |i: int|
            FilePartView { name: files[i].0@, path: files[i].1@, mime: guessed_mime(files[i].1@) },
    )
}

/// At most one step for a value that may be there.
pub open spec fn step_if(step: Option<BodyStepView>) -> Seq<BodyStepView> {
    match step {
        Some(s) => seq![s],
        None => Seq::empty(),
    }
}

/// The step of a body of plain text given as text.
pub open spec fn text_step(text: Option<Seq<char>>) -> Option<BodyStepView> {
    match text {
        Some(t) => Some(BodyStepView::Text(t)),
        None => None,
    }
}

/// The step of a body of plain text given as a file.
pub open spec fn text_file_step(path: Option<Seq<char>>) -> Option<BodyStepView> {
    match path {
        Some(p) => Some(BodyStepView::TextFile(p)),
        None => None,
    }
}

/// The step of a body of JSON given as text.
pub open spec fn json_step(text: Option<Seq<char>>) -> Option<BodyStepView> {
    match text {
        Some(t) => Some(BodyStepView::Json(t)),
        None => None,
    }
}

/// The step of a body of JSON given as a file.
pub open spec fn json_file_step(path: Option<Seq<char>>) -> Option<BodyStepView> {
    match path {
        Some(p) => Some(BodyStepView::JsonFile(p)),
        None => None,
    }
}

/// The step of a form, if there are fields.
pub open spec fn form_step(form: Seq<Seq<char>>) -> Option<BodyStepView> {
    if form.len() > 0 {
        Some(BodyStepView::Form(pairs_of(form)))
    } else {
        None
    }
}

/// The step of a multipart body, if there are fields or files.
pub open spec fn multipart_step(mp: Seq<Seq<char>>, files: Seq<(String, String)>) -> Option<
    BodyStepView,
> {
    if mp.len() > 0 || files.len() > 0 {
        Some(BodyStepView::Multipart { fields: pairs_of(mp), files: parts_of(files) })
    } else {
        None
    }
}

/// The steps that give a request of the run its body, in the order in which
/// they are taken: plain text, form, JSON, multipart, and within plain text
/// and JSON the text before the file.
pub open spec fn planned_steps(arg: Arg) -> Seq<BodyStepView> {
    step_if(text_step(text_view(arg.text_body))) + step_if(
        text_file_step(text_view(arg.text_file)),
    ) + step_if(form_step(texts(arg.form@))) + step_if(json_step(text_view(arg.json_body)))
        + step_if(json_file_step(text_view(arg.json_file))) + step_if(
        multipart_step(texts(arg.mp@), arg.mp_file@),
    )
}

/// The headers that the client sends with every request: those of the
/// options, and `Connection: Close` behind them where connections are not
/// kept alive.
pub open spec fn planned_headers(arg: Arg) -> Seq<Pair> {
    if arg.disable_keep_alive {
        pairs_of(texts(arg.headers@)).push(("Connection"@, "Close"@))
    } else {
        pairs_of(texts(arg.headers@))
    }
}

/// Tells whether `c` is white space.
pub fn white_space(c: char) -> (white: bool)
    ensures
        white == is_white_space(c),
{
    let code = c as u32;
    (0x09 <= code && code <= 0x0d) || code == 0x20 || code == 0x85 || code == 0xa0 || code
        == 0x1680 || (0x2000 <= code && code <= 0x200a) || code == 0x2028 || code == 0x2029 || code
        == 0x202f || code == 0x205f || code == 0x3000
}

/// Where `text` starts once the white space at its start is cut.
fn kept_from(text: &str) -> (start: usize)
    ensures
        start <= text@.len(),
        text@.subrange(start as int, text@.len() as int) == trimmed_start(text@),
{
    let len = text.unicode_len();
    let mut i: usize = 0;
    assert(text@.subrange(0, len as int) =~= text@);
    while i < len
        invariant
            i <= len,
            len == text@.len(),
            trimmed_start(text@.subrange(i as int, len as int)) == trimmed_start(text@),
        decreases len - i,
    {
        let ghost rest = text@.subrange(i as int, len as int);
        assert(rest[0] == text@[i as int]);
        if !white_space(text.get_char(i)) {
            return i;
        }
        assert(rest.drop_first() =~= text@.subrange(i as int + 1, len as int));
        i += 1;
    }
    i
}

/// Where `text` ends, not before `start`, once the white space at its end is
/// cut.
fn kept_until(text: &str, start: usize) -> (end: usize)
    requires
        start <= text@.len(),
    ensures
        start <= end <= text@.len(),
        text@.subrange(start as int, end as int) == trimmed_end(
            text@.subrange(start as int, text@.len() as int),
        ),
{
    let len = text.unicode_len();
    let ghost whole = text@.subrange(start as int, len as int);
    let mut j: usize = len;
    while j > start
        invariant
            start <= j <= len,
            len == text@.len(),
            whole == text@.subrange(start as int, len as int),
            trimmed_end(text@.subrange(start as int, j as int)) == trimmed_end(whole),
        decreases j - start,
    {
        let ghost rest = text@.subrange(start as int, j as int);
        assert(rest.last() == text@[j as int - 1]);
        if !white_space(text.get_char(j - 1)) {
            return j;
        }
        assert(rest.drop_last() =~= text@.subrange(start as int, j as int - 1));
        j -= 1;
    }
    j
}

/// `text` without the white space at its two ends.
pub fn trim(text: &str) -> (cut: &str)
    ensures
        cut@ == trimmed(text@),
{
    let start = kept_from(text);
    let end = kept_until(text, start);
    text.substring_char(start, end)
}

/// The name and the value in `text`.
pub fn trimmed_pair(text: &str) -> (pair: Option<(String, String)>)
    ensures
        match pair {
            Some((name, value)) => pair_of(text@) == Some((name@, value@)),
            None => pair_of(text@) is None,
        },
{
    split_pair(trim(text))
}

/// The names and values in `items`, in their order; an item without `:` is
/// passed over.
pub fn pairs(items: &Vec<String>) -> (found: Vec<(String, String)>)
    ensures
        pair_views(found@) == pairs_of(texts(items@)),
{
    let ghost all = texts(items@);
    let mut found: Vec<(String, String)> = Vec::new();
    let mut i: usize = 0;
    assert(pair_views(found@) =~= pairs_of(all.take(0)));
    while i < items.len()
        invariant
            i <= items.len(),
            all == texts(items@),
            pair_views(found@) == pairs_of(all.take(i as int)),
        decreases items.len() - i,
    {
        proof {
            assert(all.take(i as int + 1).drop_last() =~= all.take(i as int));
            assert(all.take(i as int + 1).last() == items@[i as int]@);
        }
        let ghost before = pair_views(found@);
        match trimmed_pair(items[i].as_str()) {
            Some(pair) => {
                let ghost entry = (pair.0@, pair.1@);
                found.push(pair);
                assert(pair_views(found@) =~= before.push(entry));
            },
            None => {},
        }
        i += 1;
    }
    assert(all.take(items.len() as int) =~= all);
    found
}

/// The headers that the client sends with every request.
pub fn client_headers(arg: &Arg) -> (headers: Vec<(String, String)>)
    ensures
        pair_views(headers@) == planned_headers(*arg),
{
    let mut headers = pairs(&arg.headers);
    if arg.disable_keep_alive {
        let ghost before = pair_views(headers@);
        headers.push(("Connection".to_owned(), "Close".to_owned()));
        assert(pair_views(headers@) =~= before.push(("Connection"@, "Close"@)));
    }
    headers
}

/// The media type that the extension of `path` suggests, as its type, a slash
/// and its subtype.
pub fn guess_mime(path: &str) -> (mime: String)
    ensures
        mime@ == guessed_mime(path@),
{
    let mut mime = mime_type(path);
    mime.append("/");
    mime.append(mime_subtype(path).as_str());
    mime
}

/// The files with the media type that the extension of each suggests.
pub fn file_parts(files: &Vec<(String, String)>) -> (parts: Vec<FilePart>)
    ensures
        file_views(parts@) == parts_of(files@),
{
    let mut parts: Vec<FilePart> = Vec::new();
    let mut i: usize = 0;
    while i < files.len()
        invariant
            i <= files.len(),
            parts@.len() == i,
            forall|j: int|
                0 <= j < i ==> (#[trigger] parts@[j])@ == (FilePartView {
                    name: files@[j].0@,
                    path: files@[j].1@,
                    mime: guessed_mime(files@[j].1@),
                }),
        decreases files.len() - i,
    {
        let name = files[i].0.clone();
        let path = files[i].1.clone();
        let mime = guess_mime(path.as_str());
        parts.push(FilePart { name, path, mime });
        i += 1;
    }
    assert(file_views(parts@) =~= parts_of(files@));
    parts
}

/// Puts `step` behind `steps` if it is there.
fn push_step(steps: &mut Vec<BodyStep>, step: Option<BodyStep>)
    ensures
        step_views(final(steps)@) == step_views(old(steps)@) + step_if(
            match step {
                Some(s) => Some(s@),
                None => None,
            },
        ),
{
    let ghost before = step_views(steps@);
    match step {
        Some(s) => {
            let ghost view = s@;
            steps.push(s);
            assert(step_views(steps@) =~= before + seq![view]);
        },
        None => {
            assert(step_views(steps@) =~= before + Seq::<BodyStepView>::empty());
        },
    }
}

/// The steps that give a request of the run its body, in the order in which
/// they are taken.
pub fn body_steps(arg: &Arg) -> (steps: Vec<BodyStep>)
    ensures
        step_views(steps@) == planned_steps(*arg),
{
    let mut steps: Vec<BodyStep> = Vec::new();
    assert(step_views(steps@) =~= Seq::<BodyStepView>::empty());
    let text = match &arg.text_body {
        Some(body) => Some(BodyStep::Text(body.clone())),
        None => None,
    };
    push_step(&mut steps, text);
    let text_file = match &arg.text_file {
        Some(path) => Some(BodyStep::TextFile(path.clone())),
        None => None,
    };
    push_step(&mut steps, text_file);
    let form = if arg.form.len() > 0 {
        Some(BodyStep::Form(pairs(&arg.form)))
    } else {
        None
    };
    push_step(&mut steps, form);
    let json = match &arg.json_body {
        Some(body) => Some(BodyStep::Json(body.clone())),
        None => None,
    };
    push_step(&mut steps, json);
    let json_file = match &arg.json_file {
        Some(path) => Some(BodyStep::JsonFile(path.clone())),
        None => None,
    };
    push_step(&mut steps, json_file);
    let multipart = if arg.mp.len() > 0 || arg.mp_file.len() > 0 {
        Some(BodyStep::Multipart { fields: pairs(&arg.mp), files: file_parts(&arg.mp_file) })
    } else {
        None
    };
    push_step(&mut steps, multipart);
    assert(step_views(steps@) =~= planned_steps(*arg));
    steps
}

impl BodyStep {
    /// The content type that this step sets; a form and a multipart body
    /// bring their own.
    pub fn content_type(&self) -> (content_type: Option<&'static str>)
        ensures
            match content_type {
                Some(t) => content_type_of(self@) == Some(t@),
                None => content_type_of(self@) is None,
            },
    {
        match self {
            BodyStep::Text(_) => Some("text/plain; charset=UTF-8"),
            BodyStep::TextFile(_) => Some("text/plain; charset=UTF-8"),
            BodyStep::Json(_) => Some("application/json; charset=UTF-8"),
            BodyStep::JsonFile(_) => Some("application/json; charset=UTF-8"),
            BodyStep::Form(_) => None,
            BodyStep::Multipart { .. } => None,
        }
    }
}

} // verus!
