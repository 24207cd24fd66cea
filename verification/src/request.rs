//! Reading a request: its first line, its header fields, and its body.
use crate::failure::{fail, Failure, FailureKind};
use crate::number::{
    decimal, hexadecimal, law_number_reads_back, lemma_digits_only, parse_number, parse_unsigned,
};
use crate::pairs::{lookup, pair_map, value_of};
use crate::text::{
    char_index, chars_of, contains_text, first_word, has_text, is_blank, is_white, is_word,
    lemma_first_word, lower, lowered, next_word, split_once, split_once_at, text_between, trim,
    trim_end, trim_start, trimmed,
};
use vstd::prelude::*;
use vstd::string::*;

verus! {

/// A request.
#[derive(Debug)]
pub struct HttpRequest {
    pub method: String,
    pub path: String,
    /// The fields in the order in which they came, with names in lower case. Of two with one name
    /// the later one counts.
    pub headers: Vec<(String, String)>,
    pub body: Vec<u8>,
}

/// What is read next.
#[derive(Clone, Copy, Debug, PartialEq, Eq, Structural)]
pub enum Stage {
    /// The first line.
    Start,
    /// A header field, or the empty line after them.
    Headers,
    /// A body of known length.
    Body(usize),
    /// The line with the size of a chunk.
    ChunkSize,
    /// A chunk of known length.
    ChunkData(usize),
    /// The two bytes after a chunk.
    ChunkEnd,
    /// A line after the last chunk.
    Trailer,
    /// Nothing: the request is complete.
    Done,
}

/// What a reader wants from the connection.
#[derive(Clone, Copy, Debug, PartialEq, Eq, Structural)]
pub enum Want {
    /// A line, with the line feed that ends it; an empty text at the end of the input.
    Line,
    /// That many bytes.
    Exact(usize),
    /// Nothing: the request is complete.
    Nothing,
}

/// What is wanted at a stage.
pub open spec fn wanted(stage: Stage) -> Want {
    match stage {
        Stage::Start | Stage::Headers | Stage::ChunkSize | Stage::Trailer => Want::Line,
        Stage::Body(n) | Stage::ChunkData(n) => Want::Exact(n),
        Stage::ChunkEnd => Want::Exact(2),
        Stage::Done => Want::Nothing,
    }
}

/// How far a request has been read, and what was read of it.
pub struct Progress {
    pub stage: Stage,
    pub method: Seq<char>,
    pub path: Seq<char>,
    pub headers: Map<Seq<char>, Seq<char>>,
    pub body: Seq<u8>,
}

/// `s` without the line breaks at its end.
pub open spec fn trim_breaks(s: Seq<char>) -> Seq<char>
    decreases s.len(),
{
    if s.len() > 0 && (s.last() == '\r' || s.last() == '\n') {
        trim_breaks(s.drop_last())
    } else {
        s
    }
}

/// `s` without the line breaks at its end.
fn without_breaks(s: &str) -> (r: String)
    ensures
        r@ == trim_breaks(s@),
{
    let chars = chars_of(s);
    let mut end: usize = chars.len();
    proof {
        assert(chars@.take(end as int) =~= chars@);
    }
    while end > 0 && (chars[end - 1] == '\r' || chars[end - 1] == '\n')
        invariant
            end <= chars@.len(),
            trim_breaks(chars@.take(end as int)) == trim_breaks(s@),
        decreases end,
    {
        proof {
            assert(chars@.take(end as int).drop_last() =~= chars@.take(end - 1));
        }
        end = end - 1;
    }
    proof {
        assert(chars@.subrange(0, end as int) =~= chars@.take(end as int));
    }
    text_between(&chars, 0, end)
}

/// The method and the path in the first line of a request, or why there are none.
pub open spec fn request_target(line: Seq<char>) -> Result<
    (Seq<char>, Seq<char>),
    (FailureKind, Seq<char>),
> {
    match first_word(line) {
        None => Err((FailureKind::UnexpectedEof, "empty request"@)),
        Some((method, rest)) => match first_word(rest) {
            None => Err((FailureKind::InvalidData, "missing path"@)),
            Some((path, _)) => Ok((method, path)),
        },
    }
}

/// The length of the body that the header fields announce.
pub open spec fn announced_length(headers: Map<Seq<char>, Seq<char>>) -> nat {
    match value_of(headers, "content-length"@) {
        Some(v) => match parse_unsigned(v, 10, usize::MAX as nat) {
            Some(n) => n,
            None => 0,
        },
        None => 0,
    }
}

/// Whether the header fields announce a body in chunks.
pub open spec fn is_chunked(headers: Map<Seq<char>, Seq<char>>) -> bool {
    match value_of(headers, "transfer-encoding"@) {
        Some(v) => has_text(lower(v), "chunked"@),
        None => false,
    }
}

/// The stage after the header fields.
pub open spec fn body_stage(headers: Map<Seq<char>, Seq<char>>) -> Stage {
    if is_chunked(headers) {
        Stage::ChunkSize
    } else if announced_length(headers) > 0 {
        Stage::Body(announced_length(headers) as usize)
    } else {
        Stage::Done
    }
}

/// The part of a line with the size of a chunk that writes the size.
pub open spec fn size_text(line: Seq<char>) -> Seq<char> {
    let t = trim(line);
    t.take(char_index(t, ';') as int)
}

/// The progress after one more line, or the failure that the line is.
pub open spec fn line_step(p: Progress, line: Seq<char>) -> Result<
    Progress,
    (FailureKind, Seq<char>),
> {
    match p.stage {
        Stage::Start => match request_target(line) {
            Ok((method, path)) => Ok(Progress { stage: Stage::Headers, method, path, ..p }),
            Err(e) => Err(e),
        },
        Stage::Headers => {
            let t = trim_breaks(line);
            if t.len() == 0 {
                Ok(Progress { stage: body_stage(p.headers), ..p })
            } else {
                match split_once_at(t, ':') {
                    Some((name, value)) => Ok(
                        Progress { headers: p.headers.insert(lower(trim(name)), trim(value)), ..p },
                    ),
                    None => Ok(p),
                }
            }
        },
        Stage::ChunkSize => if trim(line).len() == 0 {
            Ok(p)
        } else {
            match parse_unsigned(size_text(line), 16, usize::MAX as nat) {
                Some(n) => Ok(
                    Progress {
                        stage: if n == 0 {
                            Stage::Trailer
                        } else {
                            Stage::ChunkData(n as usize)
                        },
                        ..p
                    },
                ),
                None => Err(
                    (FailureKind::InvalidData, "invalid chunk size: "@ + size_text(line)),
                ),
            }
        },
        Stage::Trailer => if trim(line).len() == 0 {
            Ok(Progress { stage: Stage::Done, ..p })
        } else {
            Ok(p)
        },
        _ => Ok(p),
    }
}

/// The progress after the bytes that were wanted.
pub open spec fn bytes_step(p: Progress, bytes: Seq<u8>) -> Progress {
    match p.stage {
        Stage::Body(_) => Progress { stage: Stage::Done, body: bytes, ..p },
        Stage::ChunkData(_) => Progress { stage: Stage::ChunkEnd, body: p.body + bytes, ..p },
        Stage::ChunkEnd => Progress { stage: Stage::ChunkSize, ..p },
        _ => p,
    }
}

/// The progress before anything is read.
pub open spec fn not_begun() -> Progress {
    Progress {
        stage: Stage::Start,
        method: Seq::empty(),
        path: Seq::empty(),
        headers: Map::empty(),
        body: Seq::empty(),
    }
}

/// A request that is being read. It asks for lines and bytes, and takes them one after the other.
#[derive(Debug)]
pub struct RequestReader {
    pub stage: Stage,
    pub request: HttpRequest,
}

impl View for RequestReader {
    type V = Progress;

    /// How far the request has been read, and what was read of it.
    open spec fn view(&self) -> Progress {
        Progress {
            stage: self.stage,
            method: self.request.method@,
            path: self.request.path@,
            headers: pair_map(self.request.headers@),
            body: self.request.body@,
        }
    }
}

impl RequestReader {
    /// A reader that has read nothing.
    pub fn new() -> (r: RequestReader)
        ensures
            r@ == not_begun(),
    {
        let r = RequestReader {
            stage: Stage::Start,
            request: HttpRequest {
                method: String::new(),
                path: String::new(),
                headers: Vec::new(),
                body: Vec::new(),
            },
        };
        proof {
            assert(r.request.method@ =~= Seq::<char>::empty());
            assert(r.request.path@ =~= Seq::<char>::empty());
        }
        r
    }

    /// What the reader wants next.
    pub fn want(&self) -> (r: Want)
        ensures
            r == wanted(self.stage),
    {
        match self.stage {
            Stage::Start | Stage::Headers | Stage::ChunkSize | Stage::Trailer => Want::Line,
            Stage::Body(n) | Stage::ChunkData(n) => Want::Exact(n),
            Stage::ChunkEnd => Want::Exact(2),
            Stage::Done => Want::Nothing,
        }
    }

    /// Takes the line that was wanted. A line that is refused changes nothing.
    pub fn take_line(&mut self, line: &str) -> (r: Result<(), Failure>)
        requires
            wanted(old(self).stage) == Want::Line,
        ensures
            match r {
                Ok(_) => line_step(old(self)@, line@) == Ok::<
                    Progress,
                    (FailureKind, Seq<char>),
                >(final(self)@),
                Err(e) => line_step(old(self)@, line@) == Err::<
                    Progress,
                    (FailureKind, Seq<char>),
                >(e@) && *final(self) == *old(self),
            },
    {
        match self.stage {
            Stage::Start => match next_word(line) {
                None => Err(fail(FailureKind::UnexpectedEof, "empty request")),
                Some((method, rest)) => match next_word(rest.as_str()) {
                    None => Err(fail(FailureKind::InvalidData, "missing path")),
                    Some((path, _)) => {
                        self.request.method = method;
                        self.request.path = path;
                        self.stage = Stage::Headers;
                        Ok(())
                    },
                },
            },
            Stage::Headers => {
                self.take_field(line);
                Ok(())
            },
            Stage::ChunkSize => self.take_chunk_size(line),
            _ => {
                if is_blank(line) {
                    self.stage = Stage::Done;
                }
                Ok(())
            },
        }
    }

    /// Takes a header field, or the empty line after them.
    fn take_field(&mut self, line: &str)
        requires
            old(self).stage == Stage::Headers,
        ensures
            line_step(old(self)@, line@) == Ok::<Progress, (FailureKind, Seq<char>)>(
                final(self)@,
            ),
    {
        let t = without_breaks(line);
        if t.as_str().is_empty() {
            self.stage = stage_after_headers(&self.request.headers);
            return ;
        }
        match split_once(t.as_str(), ':') {
            Some((name, value)) => {
                let ghost before = self.request.headers@;
                let key = lowered(trimmed(name.as_str()).as_str());
                self.request.headers.push((key, trimmed(value.as_str())));
                proof {
                    assert(self.request.headers@.drop_last() =~= before);
                }
            },
            None => {},
        }
    }

    /// Takes the line with the size of a chunk; a blank line is passed over.
    fn take_chunk_size(&mut self, line: &str) -> (r: Result<(), Failure>)
        requires
            old(self).stage == Stage::ChunkSize,
        ensures
            match r {
                Ok(_) => line_step(old(self)@, line@) == Ok::<
                    Progress,
                    (FailureKind, Seq<char>),
                >(final(self)@),
                Err(e) => line_step(old(self)@, line@) == Err::<
                    Progress,
                    (FailureKind, Seq<char>),
                >(e@) && *final(self) == *old(self),
            },
    {
        if is_blank(line) {
            return Ok(());
        }
        let size = text_before_semicolon(trimmed(line).as_str());
        match parse_number(size.as_str(), 16, usize::MAX as u64) {
            Some(n) => {
                self.stage = if n == 0 {
                    Stage::Trailer
                } else {
                    Stage::ChunkData(n as usize)
                };
                Ok(())
            },
            None => {
                let mut message = "invalid chunk size: ".to_owned();
                message.append(size.as_str());
                Err(Failure { kind: FailureKind::InvalidData, message })
            },
        }
    }

    /// Takes the bytes that were wanted.
    pub fn take_bytes(&mut self, bytes: Vec<u8>)
        requires
            wanted(old(self).stage) == Want::Exact(bytes.len()),
        ensures
            final(self)@ == bytes_step(old(self)@, bytes@),
    {
        match self.stage {
            Stage::Body(_) => {
                self.request.body = bytes;
                self.stage = Stage::Done;
            },
            Stage::ChunkData(_) => {
                self.request.body.extend_from_slice(bytes.as_slice());
                self.stage = Stage::ChunkEnd;
                proof {
                    assert(self.request.body@ =~= old(self).request.body@ + bytes@);
                }
            },
            _ => {
                self.stage = Stage::ChunkSize;
            },
        }
    }

    /// The request, once it is complete.
    pub fn finish(self) -> (r: HttpRequest)
        requires
            self.stage == Stage::Done,
        ensures
            r == self.request,
    {
        self.request
    }
}

/// What stands before the first semicolon.
fn text_before_semicolon(s: &str) -> (r: String)
    ensures
        r@ == s@.take(char_index(s@, ';') as int),
{
    match split_once(s, ';') {
        Some((before, _)) => before,
        None => {
            proof {
                crate::text::lemma_char_index(s@, ';');
                assert(s@.take(s@.len() as int) =~= s@);
            }
            s.to_owned()
        },
    }
}

/// The stage after the header fields.
fn stage_after_headers(fields: &Vec<(String, String)>) -> (r: Stage)
    ensures
        r == body_stage(pair_map(fields@)),
{
    let chunked = match lookup(fields, "transfer-encoding") {
        Some(v) => contains_text(lowered(v).as_str(), "chunked"),
        None => false,
    };
    if chunked {
        return Stage::ChunkSize;
    }
    let length: u64 = match lookup(fields, "content-length") {
        Some(v) => match parse_number(v, 10, usize::MAX as u64) {
            Some(n) => n,
            None => 0,
        },
        None => 0,
    };
    if length > 0 {
        Stage::Body(length as usize)
    } else {
        Stage::Done
    }
}

/// What a connection gives to a reader.
pub enum Input {
    Line(Seq<char>),
    Bytes(Seq<u8>),
}

/// The progress after one input, where it is what was wanted and no failure.
pub open spec fn input_step(p: Progress, input: Input) -> Option<Progress> {
    match input {
        Input::Line(line) => if wanted(p.stage) == Want::Line {
            match line_step(p, line) {
                Ok(q) => Some(q),
                Err(_) => None,
            }
        } else {
            None
        },
        Input::Bytes(bytes) => match wanted(p.stage) {
            Want::Exact(n) => if n == bytes.len() {
                Some(bytes_step(p, bytes))
            } else {
                None
            },
            _ => None,
        },
    }
}

/// The progress after several inputs.
pub open spec fn read_all(p: Progress, inputs: Seq<Input>) -> Option<Progress>
    decreases inputs.len(),
{
    if inputs.len() == 0 {
        Some(p)
    } else {
        match input_step(p, inputs[0]) {
            Some(q) => read_all(q, inputs.drop_first()),
            None => None,
        }
    }
}

/// A list of chunks as it is sent: each with its size before it, and an empty one at the end.
pub open spec fn chunked_form(chunks: Seq<Seq<u8>>) -> Seq<Input>
    decreases chunks.len(),
{
    if chunks.len() == 0 {
        seq![Input::Line("0\r\n"@), Input::Line("\r\n"@)]
    } else {
        seq![
            Input::Line(hexadecimal(chunks[0].len()) + "\r\n"@),
            Input::Bytes(chunks[0]),
            Input::Bytes(seq![13u8, 10u8]),
        ] + chunked_form(chunks.drop_first())
    }
}

/// The chunks put together.
pub open spec fn chunk_bytes(chunks: Seq<Seq<u8>>) -> Seq<u8>
    decreases chunks.len(),
{
    if chunks.len() == 0 {
        Seq::empty()
    } else {
        chunks[0] + chunk_bytes(chunks.drop_first())
    }
}

/// A text that begins and ends without white space is what remains of its line.
proof fn lemma_trim_line(s: Seq<char>)
    requires
        s.len() > 0,
        !is_white(s[0]),
        !is_white(s.last()),
    ensures
        trim(s + "\r\n"@) == s,
{
    reveal_strlit("\r\n");
    let line = s + "\r\n"@;
    assert(trim_start(line) == line);
    assert(line.last() == '\n');
    assert(line.drop_last().last() == '\r');
    assert(line.drop_last().drop_last() =~= s);
    reveal_with_fuel(trim_end, 3);
}

/// The line with the size of a chunk is read back as that size.
proof fn lemma_size_line(p: Progress, n: nat)
    requires
        p.stage == Stage::ChunkSize,
        n <= usize::MAX,
    ensures
        line_step(p, hexadecimal(n) + "\r\n"@) == Ok::<Progress, (FailureKind, Seq<char>)>(
            Progress {
                stage: if n == 0 {
                    Stage::Trailer
                } else {
                    Stage::ChunkData(n as usize)
                },
                ..p
            },
        ),
{
    let text = hexadecimal(n);
    lemma_digits_only(n, 16);
    lemma_trim_line(text);
    crate::text::lemma_char_index(text, ';');
    assert(text.take(text.len() as int) =~= text);
    law_number_reads_back(n, 16, usize::MAX as nat);
}

/// The empty chunk at the end, with an empty line after it, ends the body.
#[verifier::rlimit(50)]
proof fn lemma_last_chunk(p: Progress)
    requires
        p.stage == Stage::ChunkSize,
    ensures
        read_all(p, chunked_form(Seq::empty())) == Some(Progress { stage: Stage::Done, ..p }),
{
    let inputs = chunked_form(Seq::empty());
    reveal_strlit("\r\n");
    reveal_strlit("0\r\n");
    assert(hexadecimal(0) =~= seq!['0']);
    assert("0\r\n"@ =~= hexadecimal(0) + "\r\n"@);
    lemma_size_line(p, 0);
    let q = Progress { stage: Stage::Trailer, ..p };
    assert(trim("\r\n"@).len() == 0) by {
        let t = "\r\n"@;
        assert(t.drop_first().drop_first() =~= Seq::<char>::empty());
        reveal_with_fuel(trim_start, 3);
    }
    let done = Progress { stage: Stage::Done, ..p };
    assert(input_step(q, inputs[1]) == Some(done));
    assert(inputs.drop_first() =~= seq![inputs[1]]);
    assert(inputs.drop_first().drop_first() =~= Seq::<Input>::empty());
    reveal_with_fuel(read_all, 3);
}

/// A body that comes in chunks is the chunks put together, in their order.
#[verifier::rlimit(50)]
pub proof fn law_chunks_are_joined(p: Progress, chunks: Seq<Seq<u8>>)
    requires
        p.stage == Stage::ChunkSize,
        forall|i: int| 0 <= i < chunks.len() ==> 0 < #[trigger] chunks[i].len() <= usize::MAX,
    ensures
        read_all(p, chunked_form(chunks)) == Some(
            Progress { stage: Stage::Done, body: p.body + chunk_bytes(chunks), ..p },
        ),
    decreases chunks.len(),
{
    let inputs = chunked_form(chunks);
    if chunks.len() == 0 {
        assert(chunks =~= Seq::<Seq<u8>>::empty());
        lemma_last_chunk(p);
        assert(p.body + chunk_bytes(chunks) =~= p.body);
    } else {
        let chunk = chunks[0];
        let rest = chunks.drop_first();
        lemma_size_line(p, chunk.len());
        let a = Progress { stage: Stage::ChunkData(chunk.len() as usize), ..p };
        let b = Progress { stage: Stage::ChunkEnd, body: p.body + chunk, ..p };
        let c = Progress { stage: Stage::ChunkSize, body: p.body + chunk, ..p };
        assert(input_step(p, inputs[0]) == Some(a));
        assert(input_step(a, inputs[1]) == Some(b));
        assert(input_step(b, inputs[2]) == Some(c));
        assert(inputs.drop_first().drop_first().drop_first() =~= chunked_form(rest));
        assert(inputs.drop_first()[0] == inputs[1]);
        assert(inputs.drop_first().drop_first()[0] == inputs[2]);
        reveal_with_fuel(read_all, 4);
        assert(read_all(p, inputs) == read_all(c, chunked_form(rest)));
        assert forall|i: int| 0 <= i < rest.len() implies 0 < #[trigger] rest[i].len()
            <= usize::MAX by {
            assert(rest[i] == chunks[i + 1]);
        }
        law_chunks_are_joined(c, rest);
        assert(p.body + chunk + chunk_bytes(rest) =~= p.body + chunk_bytes(chunks));
    }
}

/// The first line of a request is read as it was written.
pub proof fn law_request_line_is_read(method: Seq<char>, path: Seq<char>, version: Seq<char>)
    requires
        method.len() > 0,
        is_word(method),
        path.len() > 0,
        is_word(path),
    ensures
        request_target(method + " "@ + path + " "@ + version + "\r\n"@) == Ok::<
            (Seq<char>, Seq<char>),
            (FailureKind, Seq<char>),
        >((method, path)),
{
    reveal_strlit(" ");
    let end = " "@ + version + "\r\n"@;
    let rest = " "@ + path + end;
    assert(method + " "@ + path + " "@ + version + "\r\n"@ =~= method + rest);
    assert(rest =~= seq![' '] + path + end);
    lemma_first_word(method, rest);
    lemma_first_word(path, end);
}

/// A text that ends with no line break stays as it is.
proof fn lemma_trim_breaks(s: Seq<char>)
    requires
        s.len() > 0,
        s.last() != '\r',
        s.last() != '\n',
    ensures
        trim_breaks(s + "\r\n"@) == s,
{
    reveal_strlit("\r\n");
    let line = s + "\r\n"@;
    assert(line.last() == '\n');
    assert(line.drop_last().last() == '\r');
    assert(line.drop_last().drop_last() =~= s);
    reveal_with_fuel(trim_breaks, 3);
}

/// A header field is read as it was written: its value is there under its name in small letters,
/// and all that was read before it stays.
pub proof fn law_header_field_is_read(p: Progress, name: Seq<char>, value: Seq<char>)
    requires
        p.stage == Stage::Headers,
        is_word(name),
        !name.contains(':'),
        value.len() > 0 ==> !is_white(value[0]) && !is_white(value.last()),
    ensures
        line_step(p, name + ": "@ + value + "\r\n"@) == Ok::<Progress, (FailureKind, Seq<char>)>(
            Progress { headers: p.headers.insert(lower(name), value), ..p },
        ),
{
    reveal_strlit(": ");
    let t = name + ": "@ + value;
    lemma_trim_breaks(t);
    assert(t[name.len() as int] == ':');
    crate::text::lemma_char_index(t, ':');
    assert(char_index(t, ':') == name.len()) by {
        let k = char_index(t, ':') as int;
        if k < name.len() {
            assert(t[k] == name[k]);
            assert(name.contains(name[k]));
        }
    }
    assert(t.take(name.len() as int) =~= name);
    let after = t.skip((name.len() + 1) as int);
    assert(after =~= seq![' '] + value);
    assert(after.drop_first() =~= value);
    assert(trim_start(after) == trim_start(value));
    assert(trim(after) == value);
    if name.len() > 0 {
        assert(!is_white(name[0]) && !is_white(name.last()));
    }
    assert(trim(name) == name);
}

/// A body of a length that the header fields announce is read as it was sent.
pub proof fn law_announced_body_is_read(p: Progress, body: Seq<u8>)
    requires
        p.stage == Stage::Headers,
        !is_chunked(p.headers),
        value_of(p.headers, "content-length"@) == Some(decimal(body.len())),
        0 < body.len() <= usize::MAX,
    ensures
        read_all(p, seq![Input::Line("\r\n"@), Input::Bytes(body)]) == Some(
            Progress { stage: Stage::Done, body, ..p },
        ),
{
    reveal_strlit("\r\n");
    let inputs = seq![Input::Line("\r\n"@), Input::Bytes(body)];
    assert(trim_breaks("\r\n"@).len() == 0) by {
        let t = "\r\n"@;
        assert(t.drop_last().drop_last() =~= Seq::<char>::empty());
        reveal_with_fuel(trim_breaks, 3);
    }
    law_number_reads_back(body.len(), 10, usize::MAX as nat);
    let q = Progress { stage: Stage::Body(body.len() as usize), ..p };
    assert(input_step(p, inputs[0]) == Some(q));
    assert(input_step(q, inputs[1]) == Some(Progress { stage: Stage::Done, body, ..p }));
    assert(inputs.drop_first() =~= seq![inputs[1]]);
    assert(inputs.drop_first().drop_first() =~= Seq::<Input>::empty());
    reveal_with_fuel(read_all, 3);
}

/// Which body follows the header fields: one in chunks where the field `transfer-encoding` holds the
/// word `chunked`, in capitals or not, whatever length is announced; otherwise one of the length that
/// the field `content-length` gives; and none where that is 0 or missing.
pub proof fn law_body_is_announced(headers: Map<Seq<char>, Seq<char>>, n: usize)
    ensures
        ({
            let chunked = headers.contains_key("transfer-encoding"@) && has_text(
                lower(headers["transfer-encoding"@]),
                "chunked"@,
            );
            &&& chunked <==> body_stage(headers) == Stage::ChunkSize
            &&& !chunked && headers.contains_key("content-length"@) && headers["content-length"@]
                == decimal(n as nat) ==> body_stage(headers) == if n > 0 {
                Stage::Body(n)
            } else {
                Stage::Done
            }
            &&& !chunked && !headers.contains_key("content-length"@) ==> body_stage(headers)
                == Stage::Done
        }),
{
    law_number_reads_back(n as nat, 10, usize::MAX as nat);
}

/// The empty line ends the header fields, and the body follows that they announce; all that was read
/// stays.
pub proof fn law_empty_line_ends_the_fields(p: Progress)
    requires
        p.stage == Stage::Headers,
    ensures
        line_step(p, "\r\n"@) == Ok::<Progress, (FailureKind, Seq<char>)>(
            Progress { stage: body_stage(p.headers), ..p },
        ),
{
    reveal_strlit("\r\n");
    let t = "\r\n"@;
    assert(t.drop_last().drop_last() =~= Seq::<char>::empty());
    reveal_with_fuel(trim_breaks, 3);
}

/// A reader wants as many bytes as are announced, and no more once the request is complete.
pub proof fn law_reader_wants_what_is_announced(n: usize)
    ensures
        wanted(Stage::Start) == Want::Line,
        wanted(Stage::Headers) == Want::Line,
        wanted(Stage::Body(n)) == Want::Exact(n),
        wanted(Stage::ChunkData(n)) == Want::Exact(n),
        wanted(Stage::ChunkEnd) == Want::Exact(2),
        wanted(Stage::ChunkSize) == Want::Line,
        wanted(Stage::Trailer) == Want::Line,
        wanted(Stage::Done) == Want::Nothing,
{
}

/// A first line without a word is the end of the input, and one with a single word lacks a path.
pub proof fn law_short_request_lines_are_refused(blank: Seq<char>, word: Seq<char>)
    requires
        forall|i: int| 0 <= i < blank.len() ==> is_white(#[trigger] blank[i]),
        blank.len() > 0,
        word.len() > 0,
        is_word(word),
    ensures
        request_target(blank) matches Err((FailureKind::UnexpectedEof, _)),
        request_target(word + blank) matches Err((FailureKind::InvalidData, _)),
{
    lemma_blank_has_no_word(blank);
    lemma_first_word(word, blank);
}

/// White space holds no word.
proof fn lemma_blank_has_no_word(s: Seq<char>)
    requires
        forall|i: int| 0 <= i < s.len() ==> is_white(#[trigger] s[i]),
    ensures
        trim_start(s).len() == 0,
        first_word(s) is None,
    decreases s.len(),
{
    if s.len() > 0 {
        let rest = s.drop_first();
        assert(is_white(s[0]));
        assert forall|i: int| 0 <= i < rest.len() implies is_white(#[trigger] rest[i]) by {
            assert(rest[i] == s[i + 1]);
        }
        lemma_blank_has_no_word(rest);
    }
}

/// The size of a chunk is what stands before a semicolon; what follows it does not matter. A size
/// that is no hexadecimal number is a failure.
#[verifier::rlimit(50)]
pub proof fn law_chunk_size_is_read(p: Progress, n: usize, extension: Seq<char>)
    requires
        p.stage == Stage::ChunkSize,
        extension.len() > 0,
        !is_white(extension.last()),
    ensures
        line_step(p, hexadecimal(n as nat) + ";"@ + extension + "\r\n"@) == Ok::<
            Progress,
            (FailureKind, Seq<char>),
        >(
            Progress {
                stage: if n == 0 {
                    Stage::Trailer
                } else {
                    Stage::ChunkData(n)
                },
                ..p
            },
        ),
        line_step(p, "-"@ + extension + "\r\n"@) matches Err((FailureKind::InvalidData, _)),
{
    reveal_strlit(";");
    reveal_strlit("-");
    let text = hexadecimal(n as nat);
    let line = text + ";"@ + extension;
    lemma_digits_only(n as nat, 16);
    assert(line[0] == text[0] && line.last() == extension.last());
    lemma_trim_line(line);
    crate::text::lemma_char_index(line, ';');
    assert(line[text.len() as int] == ';');
    assert(char_index(line, ';') == text.len()) by {
        let k = char_index(line, ';') as int;
        if k < text.len() {
            assert(line[k] == text[k]);
        }
    }
    assert(line.take(text.len() as int) =~= text);
    law_number_reads_back(n as nat, 16, usize::MAX as nat);
    let wrong = "-"@ + extension;
    assert(wrong[0] == '-' && wrong.last() == extension.last());
    lemma_trim_line(wrong);
    crate::text::lemma_char_index(wrong, ';');
    let size = size_text(wrong + "\r\n"@);
    assert(size == wrong.take(char_index(wrong, ';') as int));
    assert(char_index(wrong, ';') > 0);
    assert(size[0] == '-');
    lemma_not_a_number(size);
}

/// A text that begins with a hyphen is no number.
proof fn lemma_not_a_number(s: Seq<char>)
    requires
        s.len() > 0,
        s[0] == '-',
    ensures
        crate::number::digits_value(s, 16) is None,
        parse_unsigned(s, 16, usize::MAX as nat) is None,
    decreases s.len(),
{
    if s.len() > 1 {
        assert(s.drop_last()[0] == '-');
        lemma_not_a_number(s.drop_last());
    }
}

/// A line that holds no colon adds no field, and a line after the last chunk that is not blank is
/// passed over.
pub proof fn law_other_lines_add_nothing(p: Progress, line: Seq<char>)
    requires
        line.len() > 0,
        is_word(line),
        !line.contains(':'),
    ensures
        p.stage == Stage::Headers ==> line_step(p, line + "\r\n"@) == Ok::<
            Progress,
            (FailureKind, Seq<char>),
        >(p),
        p.stage == Stage::Trailer ==> line_step(p, line + "\r\n"@) == Ok::<
            Progress,
            (FailureKind, Seq<char>),
        >(p),
{
    assert(!is_white(line[0]) && !is_white(line.last()));
    lemma_trim_breaks(line);
    lemma_trim_line(line);
    crate::text::lemma_char_index(line, ':');
    if char_index(line, ':') < line.len() {
        assert(line.contains(line[char_index(line, ':') as int]));
    }
}

/// White space around the name and the value of a header field is dropped, as is what ends its line.
pub proof fn law_field_is_trimmed(p: Progress, name: Seq<char>, value: Seq<char>)
    requires
        p.stage == Stage::Headers,
        !name.contains(':'),
        value.len() > 0 ==> value.last() != '\r' && value.last() != '\n',
    ensures
        line_step(p, name + ":"@ + value + "\r\n"@) == Ok::<Progress, (FailureKind, Seq<char>)>(
            Progress { headers: p.headers.insert(lower(trim(name)), trim(value)), ..p },
        ),
{
    reveal_strlit(":");
    let t = name + ":"@ + value;
    assert(t.last() == if value.len() > 0 {
        value.last()
    } else {
        ':'
    });
    lemma_trim_breaks(t);
    assert(t[name.len() as int] == ':');
    crate::text::lemma_char_index(t, ':');
    assert(char_index(t, ':') == name.len()) by {
        let k = char_index(t, ':') as int;
        if k < name.len() {
            assert(t[k] == name[k]);
            assert(name.contains(name[k]));
        }
    }
    assert(t.take(name.len() as int) =~= name);
    assert(t.skip((name.len() + 1) as int) =~= value);
}

} // verus!
