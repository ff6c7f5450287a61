use vstd::prelude::*;
use vstd::string::*;

use crate::text::str_eq;

verus! {

/// The pseudo-header that stands for the request's method and path.
pub open spec fn request_target_name() -> Seq<char> {
    "(request-target)"@
}

/// The line that one signed header contributes: `name: value`.
pub open spec fn header_line(name: Seq<char>, value: Seq<char>) -> Seq<char> {
    name + ": "@ + value
}

/// The value of the first header called `name`, if any.
pub open spec fn header_value(headers: Seq<(String, String)>, name: Seq<char>) -> Option<Seq<char>>
    decreases headers.len(),
{
    if headers.len() == 0 {
        None
    } else if headers[0].0@ == name {
        Some(headers[0].1@)
    } else {
        header_value(headers.drop_first(), name)
    }
}

/// The line for the signed header `name`, or `None` when the request does
/// not carry it. `target` is the lower-case method, a space and the path.
pub open spec fn signed_line(target: Seq<char>, headers: Seq<(String, String)>, name: Seq<char>) -> Option<
    Seq<char>,
> {
    if name == request_target_name() {
        Some(header_line(name, target))
    } else {
        match header_value(headers, name) {
            Some(v) => Some(header_line(name, v)),
            None => None,
        }
    }
}

/// The text that an HTTP signature covers: the lines of the signed headers,
/// in the order the signature lists them, joined by line feeds; `None` when
/// a signed header is missing.
pub open spec fn signing_text(
    names: Seq<String>,
    target: Seq<char>,
    headers: Seq<(String, String)>,
) -> Option<Seq<char>>
    decreases names.len(),
{
    if names.len() == 0 {
        Some(Seq::empty())
    } else {
        match (
            signing_text(names.drop_last(), target, headers),
            signed_line(target, headers, names.last()@),
        ) {
            (Some(prev), Some(line)) => Some(
                if names.len() == 1 {
                    line
                } else {
                    prev + "\n"@ + line
                },
            ),
            _ => None,
        }
    }
}

/// The value of the first header called `name`.
pub fn find_header<'a>(headers: &'a Vec<(String, String)>, name: &str) -> (r: Option<&'a String>)
    ensures
        r is None <==> header_value(headers@, name@) is None,
        r matches Some(v) ==> header_value(headers@, name@) == Some(v@),
{
    let mut i: usize = 0;
    assert(headers@.subrange(0, headers@.len() as int) =~= headers@);
    while i < headers.len()
        invariant
            i <= headers@.len(),
            header_value(headers@, name@) == header_value(headers@.subrange(i as int, headers@.len() as int), name@),
        decreases headers@.len() - i,
    {
        let ghost rest = headers@.subrange(i as int, headers@.len() as int);
        assert(rest.drop_first() =~= headers@.subrange(i + 1, headers@.len() as int));
        assert(rest[0] == headers@[i as int]);
        if str_eq(headers[i].0.as_str(), name) {
            return Some(&headers[i].1);
        }
        i = i + 1;
    }
    None
}

/// Rebuilds the text that the sender signed, from the names the signature
/// lists, the request target (`post /inbox`) and the request's headers.
pub fn signing_string(names: &Vec<String>, target: &str, headers: &Vec<(String, String)>) -> (r: Option<
    String,
>)
    ensures
        r is None <==> signing_text(names@, target@, headers@) is None,
        r matches Some(s) ==> signing_text(names@, target@, headers@) == Some(s@),
{
    proof {
        reveal_strlit("(request-target)");
        reveal_strlit(": ");
        reveal_strlit("\n");
    }
    let mut out = String::new();
    let mut i: usize = 0;
    while i < names.len()
        invariant
            i <= names@.len(),
            signing_text(names@.subrange(0, i as int), target@, headers@) == Some(out@),
        decreases names@.len() - i,
    {
        let ghost prefix = names@.subrange(0, i + 1);
        assert(prefix.drop_last() =~= names@.subrange(0, i as int));
        assert(prefix.last() == names@[i as int]);
        let name = names[i].as_str();
        let value: &str = if str_eq(name, "(request-target)") {
            target
        } else {
            match find_header(headers, name) {
                Some(v) => v.as_str(),
                None => {
                    proof {
                        lemma_missing_line_stays_missing(names@, target@, headers@, i as int);
                    }
                    return None;
                },
            }
        };
        if i > 0 {
            out.append("\n");
        }
        out.append(name);
        out.append(": ");
        out.append(value);
        i = i + 1;
        proof {
            assert(signing_text(prefix, target@, headers@) == Some(out@)) by {
                if i == 1 {
                    assert(out@ =~= header_line(name@, value@));
                } else {
                    assert(out@ =~= signing_text(names@.subrange(0, i - 1), target@, headers@)->Some_0
                        + "\n"@ + header_line(name@, value@));
                }
            }
        }
    }
    assert(names@.subrange(0, i as int) =~= names@);
    Some(out)
}

proof fn lemma_missing_line_stays_missing(
    names: Seq<String>,
    target: Seq<char>,
    headers: Seq<(String, String)>,
    i: int,
)
    requires
        0 <= i < names.len(),
        signed_line(target, headers, names[i]@) is None,
    ensures
        signing_text(names, target, headers) is None,
    decreases names.len(),
{
    if i < names.len() - 1 {
        lemma_missing_line_stays_missing(names.drop_last(), target, headers, i);
    }
}

/// Splits `s` at spaces: the words finished so far, and the word being
/// read at its end.
pub open spec fn split_spaces(s: Seq<char>) -> (Seq<Seq<char>>, Seq<char>)
    decreases s.len(),
{
    if s.len() == 0 {
        (Seq::empty(), Seq::empty())
    } else {
        let (done, cur) = split_spaces(s.drop_last());
        if s.last() == ' ' {
            if cur.len() > 0 {
                (done.push(cur), Seq::empty())
            } else {
                (done, Seq::empty())
            }
        } else {
            (done, cur.push(s.last()))
        }
    }
}

/// The space-separated words of `s`, with no empty ones.
pub open spec fn words(s: Seq<char>) -> Seq<Seq<char>> {
    let (done, cur) = split_spaces(s);
    if cur.len() > 0 {
        done.push(cur)
    } else {
        done
    }
}

/// Reads the `headers` parameter of a signature: the names of the signed
/// headers, separated by spaces.
pub fn signed_header_names(param: &str) -> (r: Vec<String>)
    ensures
        r@.len() == words(param@).len(),
        forall|i: int| 0 <= i < r@.len() ==> (#[trigger] r@[i])@ == words(param@)[i],
{
    let n = param.unicode_len();
    let mut done: Vec<String> = Vec::new();
    let mut start: usize = 0;
    let mut i: usize = 0;
    while i < n
        invariant
            n == param@.len(),
            start <= i <= n,
            split_spaces(param@.subrange(0, i as int)).1 == param@.subrange(start as int, i as int),
            done@.len() == split_spaces(param@.subrange(0, i as int)).0.len(),
            forall|k: int|
                0 <= k < done@.len() ==> (#[trigger] done@[k])@ == split_spaces(
                    param@.subrange(0, i as int),
                ).0[k],
        decreases n - i,
    {
        let ghost prefix = param@.subrange(0, i + 1);
        assert(prefix.drop_last() =~= param@.subrange(0, i as int));
        let c = param.get_char(i);
        assert(prefix.last() == c);
        if c == ' ' {
            if start < i {
                let w = param.substring_char(start, i).to_owned();
                done.push(w);
            }
            start = i + 1;
        }
        i = i + 1;
        assert(param@.subrange(start as int, i as int) =~= split_spaces(prefix).1);
    }
    assert(param@.subrange(0, n as int) =~= param@);
    if start < n {
        let w = param.substring_char(start, n).to_owned();
        done.push(w);
    }
    done
}

} // verus!
