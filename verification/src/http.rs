//! Plain HTTP: reading the request line, choosing what to serve from the
//! `html` directory, and writing the response.

use crate::bytes::append_bytes;
use crate::bytes::append_str;
use crate::headers::distinct_names;
use crate::headers::Headers;
use crate::text::decimal;
use crate::text::decimal_string;
use crate::text::rsplit_once;
use crate::text::rsplit_once_spec;
use crate::text::split_once;
use crate::text::split_once_spec;
use vstd::prelude::*;
use vstd::string::*;
use vstd::utf8::encode_utf8;

verus! {

/// The header lines of a response, one `name: value` line per entry.
pub open spec fn header_lines(pairs: Seq<(Seq<char>, Seq<char>)>) -> Seq<u8>
    decreases pairs.len(),
{
    if pairs.len() == 0 {
        Seq::empty()
    } else {
        header_lines(pairs.drop_last()) + encode_utf8(pairs.last().0) + encode_utf8(": "@)
            + encode_utf8(pairs.last().1) + seq![10u8]
    }
}

/// The bytes of a response: the status line, the header lines, an empty
/// line and the body. A response given no headers but a non-empty body gets
/// a `Content-Length` line.
pub open spec fn response_bytes(
    status: u16,
    headers: Option<Seq<(Seq<char>, Seq<char>)>>,
    data: Option<Seq<u8>>,
) -> Seq<u8> {
    let body = match data {
        Some(d) => d,
        None => Seq::empty(),
    };
    let fields = match headers {
        Some(pairs) => header_lines(pairs),
        None => if body.len() > 0 {
            encode_utf8("Content-Length: "@) + encode_utf8(decimal(body.len())) + seq![10u8]
        } else {
            Seq::empty()
        },
    };
    encode_utf8("HTTP/1.1 "@) + encode_utf8(decimal(status as nat)) + seq![10u8] + fields + seq![
        10u8,
    ] + body
}

/// An HTTP response: status code, optional header fields and optional body.
pub struct HttpResponse {
    status_code: u16,
    headers: Option<Headers>,
    data: Option<Vec<u8>>,
}

impl HttpResponse {
    /// The status code.
    pub closed spec fn status(&self) -> u16 {
        self.status_code
    }

    /// The header fields, in the order they will be written.
    pub closed spec fn header_pairs(&self) -> Option<Seq<(Seq<char>, Seq<char>)>> {
        match self.headers {
            Some(h) => Some(h.pairs()),
            None => None,
        }
    }

    /// The header fields as a map.
    pub closed spec fn header_map(&self) -> Option<Map<Seq<char>, Seq<char>>> {
        match self.headers {
            Some(h) => Some(h@),
            None => None,
        }
    }

    /// The body.
    pub closed spec fn body(&self) -> Option<Seq<u8>> {
        match self.data {
            Some(d) => Some(d@),
            None => None,
        }
    }

    /// The bytes that `write` produces for this response.
    pub open spec fn bytes(&self) -> Seq<u8> {
        response_bytes(self.status(), self.header_pairs(), self.body())
    }

    /// A response with the given status code, header fields and body.
    pub fn new(status_code: u16, headers: Option<Headers>, data: Option<Vec<u8>>) -> (res: HttpResponse)
        ensures
            res.status() == status_code,
            res.header_pairs() == (match headers {
                Some(h) => Some(h.pairs()),
                None => None,
            }),
            res.header_map() == (match headers {
                Some(h) => Some(h@),
                None => None,
            }),
            res.body() == (match data {
                Some(d) => Some(d@),
                None => None,
            }),
            res.header_pairs() matches Some(p) ==> distinct_names(p),
    {
        if let Some(h) = &headers {
            proof {
                use_type_invariant(h);
            }
        }
        HttpResponse { status_code, headers, data }
    }

    /// Appends the response's bytes to `buffer`: `HTTP/1.1 <status>`, the
    /// header lines (or a `Content-Length` line when there are no headers and
    /// the body is not empty), an empty line, then the body.
    pub fn write(&self, buffer: &mut Vec<u8>)
        ensures
            final(buffer)@ == old(buffer)@ + self.bytes(),
    {
        let ghost start = buffer@;
        append_str(buffer, "HTTP/1.1 ");
        let status = decimal_string(self.status_code as u64);
        append_str(buffer, status.as_str());
        buffer.push(10);
        let ghost after_status = buffer@;
        let body_len: usize = match &self.data {
            Some(d) => d.len(),
            None => 0,
        };
        match &self.headers {
            Some(h) => {
                let n = h.len();
                let mut i: usize = 0;
                while i < n
                    invariant
                        n == h.pairs().len(),
                        i <= n,
                        buffer@ == after_status + header_lines(h.pairs().take(i as int)),
                    decreases n - i,
                {
                    let (name, value) = h.entry(i);
                    append_str(buffer, name.as_str());
                    append_str(buffer, ": ");
                    append_str(buffer, value.as_str());
                    buffer.push(10);
                    assert(h.pairs().take(i + 1).drop_last() =~= h.pairs().take(i as int));
                    i = i + 1;
                }
                assert(h.pairs().take(n as int) =~= h.pairs());
            },
            None => {
                if body_len > 0 {
                    append_str(buffer, "Content-Length: ");
                    let len = decimal_string(body_len as u64);
                    append_str(buffer, len.as_str());
                    buffer.push(10);
                }
            },
        }
        buffer.push(10);
        match &self.data {
            Some(d) => append_bytes(buffer, d.as_slice()),
            None => {},
        }
        assert(buffer@ =~= start + self.bytes());
    }
}

/// The method and the target of a request line `METHOD TARGET VERSION`: the
/// text before the first space, and what lies between it and the last space
/// after it.
pub open spec fn request_line_spec(line: Seq<char>) -> Option<(Seq<char>, Seq<char>)> {
    match split_once_spec(line, " "@) {
        Some((method, rest)) => match rsplit_once_spec(rest, " "@) {
            Some((target, _)) => Some((method, target)),
            None => None,
        },
        None => None,
    }
}

/// Whether `line` splits into method, target and version: it has a space,
/// and another one after it.
pub fn is_request_line(line: &str) -> (res: bool)
    ensures
        res == request_line_spec(line@) is Some,
{
    match split_once(line, " ") {
        Some((_method, rest)) => rsplit_once(rest.as_str(), " ").is_some(),
        None => false,
    }
}

/// Splits a request line into its method and target.
pub fn parse_request_line(line: &str) -> (res: (String, String))
    requires
        request_line_spec(line@) is Some,
    ensures
        request_line_spec(line@) == Some((res.0@, res.1@)),
{
    match split_once(line, " ") {
        Some((method, rest)) => match rsplit_once(rest.as_str(), " ") {
            Some((target, _version)) => (method, target),
            None => (String::new(), String::new()),
        },
        None => (String::new(), String::new()),
    }
}

/// What to do with a request: answer at once, or look at a file system path.
pub enum HttpRoute {
    Respond(HttpResponse),
    Lookup(String),
}

/// The answer to any method but GET.
pub open spec fn is_method_not_allowed(r: HttpResponse) -> bool {
    &&& r.status() == 405
    &&& r.header_pairs() is None
    &&& r.body() == Some(encode_utf8("I only speak GET"@))
}

/// The file system path that a request target names: under `html`.
pub open spec fn served_path(target: Seq<char>) -> Seq<char> {
    "html"@ + target
}

/// Routes a request by its request line: a method other than GET is refused
/// with 405; a GET names the path `html<target>`.
pub fn route_request(line: &str) -> (res: HttpRoute)
    requires
        request_line_spec(line@) is Some,
    ensures
        ({
            let (method, target) = request_line_spec(line@).unwrap();
            if method == "GET"@ {
                res matches HttpRoute::Lookup(path) && path@ == served_path(target)
            } else {
                res matches HttpRoute::Respond(r) && is_method_not_allowed(r)
            }
        }),
{
    let (method, target) = parse_request_line(line);
    if method != String::from_str("GET") {
        HttpRoute::Respond(text_response(405, "I only speak GET"))
    } else {
        HttpRoute::Lookup(String::from_str("html").concat(target.as_str()))
    }
}

/// The path of a directory's index file, as `Path::join(dir, "index.html")`
/// makes it: a separator goes between unless `dir` is empty or already ends
/// with one.
pub open spec fn index_path_spec(dir: Seq<char>) -> Seq<char> {
    if dir.len() == 0 || dir.last() == '/' {
        dir + "index.html"@
    } else {
        dir + "/index.html"@
    }
}

/// The path of the index file of directory `dir`.
pub fn index_path(dir: &str) -> (res: String)
    ensures
        res@ == index_path_spec(dir@),
{
    let n = dir.unicode_len();
    if n == 0 || dir.get_char(n - 1) == '/' {
        String::from_str(dir).concat("index.html")
    } else {
        String::from_str(dir).concat("/index.html")
    }
}

/// A response with status `status` and the UTF-8 bytes of `text` as body.
fn text_response(status: u16, text: &str) -> (res: HttpResponse)
    ensures
        res.status() == status,
        res.header_pairs() is None,
        res.body() == Some(encode_utf8(text@)),
{
    let mut data: Vec<u8> = Vec::new();
    append_bytes(&mut data, text.as_bytes());
    HttpResponse::new(status, None, Some(data))
}

/// The answer when a directory has no index file.
pub open spec fn is_no_index(r: HttpResponse) -> bool {
    &&& r.status() == 418
    &&& r.header_pairs() is None
    &&& r.body() == Some(encode_utf8("i'll fix this some other time, no index file exists"@))
}

/// The answer when nothing exists at the path.
pub open spec fn is_not_found(r: HttpResponse) -> bool {
    &&& r.status() == 404
    &&& r.header_pairs() is None
    &&& r.body() == Some(encode_utf8("requested file/folder does not exist"@))
}

/// Chooses the file to serve for `path`, given what the file system says:
/// whether `path` is a directory, whether that directory's index file
/// exists, and whether `path` exists. A directory is served by its index
/// file, or answered with 418 when it has none; any other path is served as
/// it is, or answered with 404 when nothing is there.
pub fn choose_file(path: &str, is_dir: bool, index_exists: bool, exists: bool) -> (res: Result<
    String,
    HttpResponse,
>)
    ensures
        is_dir && index_exists ==> (res matches Ok(p) && p@ == index_path_spec(path@)),
        is_dir && !index_exists ==> (res matches Err(r) && is_no_index(r)),
        !is_dir && exists ==> (res matches Ok(p) && p@ == path@),
        !is_dir && !exists ==> (res matches Err(r) && is_not_found(r)),
{
    if is_dir {
        if !index_exists {
            return Err(
                text_response(418, "i'll fix this some other time, no index file exists"),
            );
        }
        Ok(index_path(path))
    } else {
        if !exists {
            return Err(text_response(404, "requested file/folder does not exist"));
        }
        Ok(String::from_str(path))
    }
}

/// The MIME type that `mime_guess` guesses first for a path, as text.
pub uninterp spec fn guessed_mime(path: Seq<char>) -> Option<Seq<char>>;

/// Calls `mime_guess::from_path(path).first()` and formats the type found.
/// Trusted: the result is `guessed_mime` of the path's characters; the crate
/// guesses from the extension alone, with a fixed table.
#[verifier::external_body]
fn guess_mime(path: &str) -> (res: Option<String>)
    ensures
        match guessed_mime(path@) {
            Some(m) => res matches Some(s) && s@ == m,
            None => res is None,
        },
{
    match mime_guess::from_path(path).first() {
        Some(mime) => Some(mime.to_string()),
        None => None,
    }
}

/// The 200 response that serves `data` with the given content type: a
/// `Content-Type` field, then a `Content-Length` field with the body's size.
pub fn file_response_with_type(content_type: String, data: Vec<u8>) -> (res: HttpResponse)
    ensures
        res.status() == 200,
        res.header_pairs() == Some(
            seq![("Content-Type"@, content_type@), ("Content-Length"@, decimal(data@.len()))],
        ),
        res.body() == Some(data@),
{
    let mut headers = Headers::new();
    let len = decimal_string(data.len() as u64);
    proof {
        reveal_strlit("Content-Type");
        reveal_strlit("Content-Length");
    }
    let ghost ct = content_type@;
    headers.insert(String::from_str("Content-Type"), content_type);
    assert(headers.pairs() =~= seq![("Content-Type"@, ct)]);
    assert("Content-Type"@ != "Content-Length"@) by {
        assert("Content-Type"@[8] != "Content-Length"@[8]);
    }
    assert(!headers@.contains_key("Content-Length"@));
    headers.insert(String::from_str("Content-Length"), len);
    assert(headers.pairs() =~= seq![("Content-Type"@, ct), ("Content-Length"@, decimal(data@.len()))]);
    HttpResponse::new(200, Some(headers), Some(data))
}

/// The 200 response that serves the file at `path` with contents `data`,
/// its content type guessed from the path.
pub fn file_response(path: &str, data: Vec<u8>) -> (res: HttpResponse)
    requires
        guessed_mime(path@) is Some,
    ensures
        res.status() == 200,
        res.header_pairs() == Some(
            seq![("Content-Type"@, guessed_mime(path@).unwrap()), ("Content-Length"@, decimal(data@.len()))],
        ),
        res.body() == Some(data@),
{
    match guess_mime(path) {
        Some(content_type) => file_response_with_type(content_type, data),
        None => file_response_with_type(String::new(), data),
    }
}

/// The response that `file_response` gives for the file at `path`, or
/// `None` when no content type is known for the path.
pub fn try_file_response(path: &str, data: Vec<u8>) -> (res: Option<HttpResponse>)
    ensures
        match guessed_mime(path@) {
            None => res is None,
            Some(m) => res matches Some(r) && r.status() == 200 && r.header_pairs() == Some(
                seq![("Content-Type"@, m), ("Content-Length"@, decimal(data@.len()))],
            ) && r.body() == Some(data@),
        },
{
    match guess_mime(path) {
        Some(_) => Some(file_response(path, data)),
        None => None,
    }
}

/// Whatever its status and header fields, a response's bytes start with the
/// status line and end with the whole body, right after an empty line: the
/// last bytes before the body are two line ends.
pub proof fn law_response_ends_with_whole_body(
    status: u16,
    headers: Option<Seq<(Seq<char>, Seq<char>)>>,
    body: Seq<u8>,
)
    ensures
        ({
            let b = response_bytes(status, headers, Some(body));
            let head_len = b.len() - body.len();
            let status_line = encode_utf8("HTTP/1.1 "@) + encode_utf8(decimal(status as nat)) + seq![10u8];
            &&& b.len() >= status_line.len() + 1 + body.len()
            &&& b.subrange(0, status_line.len() as int) == status_line
            &&& b.subrange(head_len, b.len() as int) == body
            &&& b[head_len - 1] == 10u8
            &&& b[head_len - 2] == 10u8
        }),
{
    let b = response_bytes(status, headers, Some(body));
    let status_line = encode_utf8("HTTP/1.1 "@) + encode_utf8(decimal(status as nat)) + seq![10u8];
    let fields = match headers {
        Some(pairs) => header_lines(pairs),
        None => if body.len() > 0 {
            encode_utf8("Content-Length: "@) + encode_utf8(decimal(body.len())) + seq![10u8]
        } else {
            Seq::empty()
        },
    };
    assert(b == status_line + fields + seq![10u8] + body);
    let head = status_line + fields + seq![10u8];
    assert(b.subrange(0, status_line.len() as int) =~= status_line);
    assert(b.subrange(head.len() as int, b.len() as int) =~= body);
    assert(b[head.len() - 1] == 10u8);
    if fields.len() > 0 {
        match headers {
            Some(pairs) => {
                assert(pairs.len() > 0);
                assert(fields[fields.len() - 1] == 10u8);
            },
            None => {
                assert(fields[fields.len() - 1] == 10u8);
            },
        }
        assert(b[head.len() - 2] == fields[fields.len() - 1]);
    } else {
        assert(b[head.len() - 2] == status_line[status_line.len() - 1]);
    }
}

} // verus!
