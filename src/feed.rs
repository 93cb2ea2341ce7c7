use vstd::prelude::*;
use vstd::string::*;
use vstd::utf8::{decode_utf8, encode_utf8, encode_utf8_decode_utf8, valid_utf8};

use crate::codec::{base64_decoded, chars_of, decode_base64, utf8_text};
use crate::errors::{Error, ErrorKind};
use crate::server::{from_str, parse_entry, ServerModel, ServerType};
use crate::text::{is_space, is_space_char, text_range};

verus! {

/// Retries allowed after a fetch fails in transit.
pub const MAX_FETCH_RETRIES: u32 = 3;

/// Seconds a fetch may take.
pub const FETCH_TIMEOUT_SECS: u64 = 30;

/// Whether to fetch again after a failed attempt, given how many retries
/// were already made and whether the failure was in transit (as opposed to
/// an answer that is not a success).
pub fn should_retry(retries_done: u32, transient: bool) -> (r: bool)
    ensures
        r == (transient && retries_done < MAX_FETCH_RETRIES),
{
    transient && retries_done < MAX_FETCH_RETRIES
}

/// Position of the first `\r\n` in `s`, or `s.len()` when there is none.
pub open spec fn crlf_index(s: Seq<char>) -> int
    decreases s.len(),
{
    if s.len() < 2 {
        s.len() as int
    } else if s[0] == '\r' && s[1] == '\n' {
        0
    } else {
        1 + crlf_index(s.drop_first())
    }
}

/// The records of a text whose records are separated by `\r\n`.
pub open spec fn feed_lines(s: Seq<char>) -> Seq<Seq<char>>
    decreases s.len(),
{
    let i = crlf_index(s);
    if 0 <= i && i + 2 <= s.len() {
        seq![s.subrange(0, i)] + feed_lines(s.subrange(i + 2, s.len() as int))
    } else {
        seq![s]
    }
}

/// A record made of white space alone, or empty.
pub open spec fn is_blank(s: Seq<char>) -> bool {
    forall|i: int| 0 <= i < s.len() ==> is_space(#[trigger] s[i])
}

/// The servers that the non-blank records parse to, in order.
pub open spec fn accepted(lines: Seq<Seq<char>>) -> Seq<ServerModel>
    decreases lines.len(),
{
    if lines.len() == 0 {
        Seq::empty()
    } else {
        let prev = accepted(lines.drop_last());
        let l = lines.last();
        if is_blank(l) {
            prev
        } else {
            match parse_entry(l) {
                Ok(s) => prev.push(s),
                Err(_) => prev,
            }
        }
    }
}

/// The non-blank records that do not parse, each with the reason, in order.
pub open spec fn rejected(lines: Seq<Seq<char>>) -> Seq<(Seq<char>, ErrorKind)>
    decreases lines.len(),
{
    if lines.len() == 0 {
        Seq::empty()
    } else {
        let prev = rejected(lines.drop_last());
        let l = lines.last();
        if is_blank(l) {
            prev
        } else {
            match parse_entry(l) {
                Ok(_) => prev,
                Err(k) => prev.push((l, k)),
            }
        }
    }
}

/// The text of a feed body: base64 of UTF-8 text.
pub open spec fn feed_text(body: Seq<char>) -> Result<Seq<char>, ErrorKind> {
    match base64_decoded(encode_utf8(body)) {
        None => Err(ErrorKind::DecodingError),
        Some(b) => if valid_utf8(b) {
            Ok(decode_utf8(b))
        } else {
            Err(ErrorKind::InvalidEncoding)
        },
    }
}

/// An entry of a feed that did not parse, and why.
#[derive(Debug)]
pub struct Rejection {
    pub entry: String,
    pub error: Error,
}

/// What a feed holds: the servers parsed, in order, and the entries skipped.
#[derive(Debug)]
pub struct Feed {
    pub servers: Vec<ServerType>,
    pub rejected: Vec<Rejection>,
}

pub open spec fn rejection_view(r: Rejection) -> (Seq<char>, ErrorKind) {
    (r.entry@, r.error.kind)
}

pub open spec fn server_model(s: ServerType) -> ServerModel {
    s@
}

proof fn lemma_crlf_index(s: Seq<char>, i: int)
    requires
        0 <= i <= s.len(),
        forall|j: int| 0 <= j < i && j + 1 < s.len() ==> !(#[trigger] s[j] == '\r' && s[j + 1] == '\n'),
        i + 1 < s.len() ==> s[i] == '\r' && s[i + 1] == '\n',
        i + 1 >= s.len() ==> i == s.len(),
    ensures
        crlf_index(s) == i,
    decreases i,
{
    if s.len() >= 2 && i > 0 {
        lemma_crlf_index(s.drop_first(), i - 1);
    }
}

/// Position of the first `\r\n` in `v[from..to]`, counted from the start of
/// `v`; `to` when there is none.
fn find_crlf(v: &Vec<char>, from: usize, to: usize) -> (r: usize)
    requires
        from <= to <= v.len(),
    ensures
        from <= r <= to,
        r - from == crlf_index(v@.subrange(from as int, to as int)),
        r == to || (r + 2 <= to && v@[r as int] == '\r' && v@[r + 1] == '\n'),
{
    let ghost s = v@.subrange(from as int, to as int);
    let mut i = from;
    while to - i >= 2 && !(v[i] == '\r' && v[i + 1] == '\n')
        invariant
            from <= i <= to <= v.len(),
            s == v@.subrange(from as int, to as int),
            forall|j: int|
                from <= j < i && j + 1 < to ==> !(#[trigger] v@[j] == '\r' && v@[j + 1] == '\n'),
        decreases to - i,
    {
        i = i + 1;
    }
    if to - i < 2 {
        i = to;
    }
    proof {
        lemma_crlf_index(s, i - from);
    }
    i
}

fn blank(v: &Vec<char>, from: usize, to: usize) -> (r: bool)
    requires
        from <= to <= v.len(),
    ensures
        r == is_blank(v@.subrange(from as int, to as int)),
{
    let ghost s = v@.subrange(from as int, to as int);
    let mut i = from;
    while i < to
        invariant
            from <= i <= to <= v.len(),
            s == v@.subrange(from as int, to as int),
            forall|j: int| from <= j < i ==> is_space(#[trigger] v@[j]),
        decreases to - i,
    {
        if !is_space_char(v[i]) {
            proof {
                assert(!is_space(s[i - from]));
            }
            return false;
        }
        i = i + 1;
    }
    proof {
        assert forall|j: int| 0 <= j < s.len() implies is_space(#[trigger] s[j]) by {
            assert(s[j] == v@[from + j]);
        }
    }
    true
}

/// Parses every record of a decoded feed; records that do not parse are
/// collected, not fatal.
pub fn servers_from_text(text: &str) -> (r: Feed)
    ensures
        r.servers@.map_values(|s: ServerType| server_model(s)) == accepted(feed_lines(text@)),
        r.rejected@.map_values(|x: Rejection| rejection_view(x)) == rejected(feed_lines(text@)),
{
    let v = chars_of(text);
    let n = v.len();
    let mut servers: Vec<ServerType> = Vec::new();
    let mut skipped: Vec<Rejection> = Vec::new();
    let ghost mut done: Seq<Seq<char>> = Seq::empty();
    let mut p: usize = 0;
    proof {
        assert(v@.subrange(0, n as int) =~= v@);
    }
    loop
        invariant
            p <= n == v@.len(),
            v@ == text@,
            feed_lines(text@) == done + feed_lines(v@.subrange(p as int, n as int)),
            servers@.map_values(|s: ServerType| server_model(s)) == accepted(done),
            skipped@.map_values(|x: Rejection| rejection_view(x)) == rejected(done),
        decreases n - p,
    {
        let ghost rest = v@.subrange(p as int, n as int);
        let e = find_crlf(&v, p, n);
        let ghost line = v@.subrange(p as int, e as int);
        proof {
            assert(rest.subrange(0, e - p) =~= line);
            if e + 2 <= n {
                assert(rest.subrange(e - p + 2, rest.len() as int) =~= v@.subrange(
                    e + 2,
                    n as int,
                ));
                assert(feed_lines(rest) == seq![line] + feed_lines(v@.subrange(e + 2, n as int)));
            } else {
                assert(rest =~= line);
                assert(feed_lines(rest) == seq![line]);
            }
        }
        let ghost done_before = done;
        proof {
            done = done.push(line);
            assert(done.drop_last() =~= done_before);
        }
        if !blank(&v, p, e) {
            let entry = text_range(text, p, e);
            match from_str(entry.as_str()) {
                Ok(s) => {
                    let ghost before = servers@;
                    servers.push(s);
                    proof {
                        assert(servers@.map_values(|s: ServerType| server_model(s))
                            =~= before.map_values(|s: ServerType| server_model(s)).push(
                            server_model(servers@.last()),
                        ));
                    }
                },
                Err(error) => {
                    let ghost before = skipped@;
                    skipped.push(Rejection { entry, error });
                    proof {
                        assert(skipped@.map_values(|x: Rejection| rejection_view(x))
                            =~= before.map_values(|x: Rejection| rejection_view(x)).push(
                            rejection_view(skipped@.last()),
                        ));
                    }
                },
            }
        }
        if n - e < 2 {
            proof {
                assert(feed_lines(text@) =~= done);
            }
            return Feed { servers, rejected: skipped };
        }
        proof {
            assert(feed_lines(text@) =~= done + feed_lines(v@.subrange(e + 2, n as int)));
        }
        p = e + 2;
    }
}

/// Decodes a feed body and parses its entries. Fails when the body is not
/// base64 or what it decodes to is not UTF-8; entries that do not parse
/// are collected in the result.
pub fn servers_from_feed(body: &str) -> (r: Result<Feed, Error>)
    ensures
        match feed_text(body@) {
            Err(k) => r matches Err(e) && e.kind == k,
            Ok(text) => r matches Ok(f) && f.servers@.map_values(|s: ServerType| server_model(s))
                == accepted(feed_lines(text)) && f.rejected@.map_values(
                |x: Rejection| rejection_view(x),
            ) == rejected(feed_lines(text)),
        },
{
    let decoded = match decode_base64(body.as_bytes()) {
        Some(d) => d,
        None => {
            return Err(Error::new(ErrorKind::DecodingError, "feed body is not base64".to_owned()));
        },
    };
    let text = match utf8_text(decoded) {
        Some(t) => t,
        None => {
            return Err(
                Error::new(ErrorKind::InvalidEncoding, "decoded feed is not UTF-8".to_owned()),
            );
        },
    };
    proof {
        encode_utf8_decode_utf8(text@);
    }
    Ok(servers_from_text(text.as_str()))
}

/// The characters of standard base64 text.
pub open spec fn is_base64_char(c: char) -> bool {
    ('A' <= c <= 'Z') || ('a' <= c <= 'z') || ('0' <= c <= '9') || c == '+' || c == '/' || c == '='
}

/// A feed whose text is a vmess entry with a base64 payload, then `\r\n`,
/// then `xx://bogus`, yields the vmess server alone, and one rejection: the
/// second entry, for its unsupported scheme.
pub proof fn lemma_feed_vmess_then_unknown(payload: Seq<char>, server: ServerModel)
    requires
        forall|i: int| 0 <= i < payload.len() ==> is_base64_char(#[trigger] payload[i]),
        parse_entry(seq!['v', 'm', 'e', 's', 's', ':', '/', '/'] + payload) == Ok::<
            ServerModel,
            ErrorKind,
        >(server),
    ensures
        ({
            let v = seq!['v', 'm', 'e', 's', 's', ':', '/', '/'] + payload;
            let bogus = seq!['x', 'x', ':', '/', '/', 'b', 'o', 'g', 'u', 's'];
            let lines = feed_lines(v + seq!['\r', '\n'] + bogus);
            &&& accepted(lines) == seq![server]
            &&& rejected(lines) == seq![(bogus, ErrorKind::UnsupportedScheme)]
        }),
{
    let v = seq!['v', 'm', 'e', 's', 's', ':', '/', '/'] + payload;
    let bogus = seq!['x', 'x', ':', '/', '/', 'b', 'o', 'g', 'u', 's'];
    let text = v + seq!['\r', '\n'] + bogus;
    assert forall|j: int| 0 <= j < v.len() implies #[trigger] v[j] != '\r' by {
        if j >= 8 {
            assert(v[j] == payload[j - 8]);
            assert(is_base64_char(payload[j - 8]));
        }
    }
    assert forall|j: int| 0 <= j < v.len() && j + 1 < text.len() implies !(#[trigger] text[j]
        == '\r' && text[j + 1] == '\n') by {
        assert(text[j] == v[j]);
    }
    lemma_crlf_index(text, v.len() as int);
    assert(text.subrange(0, v.len() as int) =~= v);
    assert(text.subrange(v.len() as int + 2, text.len() as int) =~= bogus);
    assert forall|j: int| 0 <= j < bogus.len() && j + 1 < bogus.len() implies !(
    #[trigger] bogus[j] == '\r' && bogus[j + 1] == '\n') by {}
    lemma_crlf_index(bogus, bogus.len() as int);
    assert(feed_lines(bogus) == seq![bogus]);
    let lines = feed_lines(text);
    assert(lines =~= seq![v, bogus]);
    assert(lines.drop_last() =~= seq![v]);
    assert(seq![v].drop_last() =~= Seq::<Seq<char>>::empty());
    assert(!is_blank(v)) by {
        assert(!is_space(v[0]));
    }
    assert(!is_blank(bogus)) by {
        assert(!is_space(bogus[0]));
    }
    crate::text::lemma_first_index(bogus, ':', 2);
    reveal_strlit("vmess");
    reveal_strlit("trojan");
    assert(bogus.subrange(0, 2).len() != "vmess"@.len());
    assert(bogus.subrange(0, 2).len() != "trojan"@.len());
    assert(parse_entry(bogus) == Err::<ServerModel, ErrorKind>(ErrorKind::UnsupportedScheme));
    assert(accepted(seq![v]) == seq![server]) by {
        assert(accepted(seq![v].drop_last()) == Seq::<ServerModel>::empty());
        assert(seq![v].last() == v);
        assert(Seq::<ServerModel>::empty().push(server) =~= seq![server]);
    }
    assert(rejected(seq![v]) == Seq::<(Seq<char>, ErrorKind)>::empty()) by {
        assert(rejected(seq![v].drop_last()) == Seq::<(Seq<char>, ErrorKind)>::empty());
        assert(seq![v].last() == v);
    }
    assert(lines.last() == bogus);
    assert(Seq::<(Seq<char>, ErrorKind)>::empty().push((bogus, ErrorKind::UnsupportedScheme))
        =~= seq![(bogus, ErrorKind::UnsupportedScheme)]);
}

} // verus!
