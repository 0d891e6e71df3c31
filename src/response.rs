use vstd::prelude::*;
use crate::serve::ResolvedTarget;

verus! {

/// A response header: its name and its value.
pub type Header = (String, String);

pub open spec fn is_ascii_upper(c: char) -> bool {
    'A' <= c && c <= 'Z'
}

/// Two characters that are equal when ASCII letters are compared without
/// regard to case.
pub open spec fn same_char(a: char, b: char) -> bool {
    ||| a == b
    ||| is_ascii_upper(a) && a as u32 + 32 == b as u32
    ||| is_ascii_upper(b) && b as u32 + 32 == a as u32
}

/// Header names are compared without regard to ASCII case.
pub open spec fn same_name(a: Seq<char>, b: Seq<char>) -> bool {
    a.len() == b.len() && forall|i: int| 0 <= i < a.len() ==> same_char(#[trigger] a[i], b[i])
}

/// `headers` without those named `name`, in their order.
pub open spec fn without(headers: Seq<(Seq<char>, Seq<char>)>, name: Seq<char>) -> Seq<(Seq<char>, Seq<char>)>
    decreases headers.len(),
{
    if headers.len() == 0 {
        headers
    } else {
        let rest = without(headers.drop_last(), name);
        if same_name(headers.last().0, name) {
            rest
        } else {
            rest.push(headers.last())
        }
    }
}

/// `headers` with every header named `name` replaced by one with `value`.
pub open spec fn with_header(headers: Seq<(Seq<char>, Seq<char>)>, name: Seq<char>, value: Seq<char>) -> Seq<(Seq<char>, Seq<char>)> {
    without(headers, name).push((name, value))
}

pub open spec fn allow_origin() -> Seq<char> {
    "Access-Control-Allow-Origin"@
}

pub open spec fn allow_methods() -> Seq<char> {
    "Access-Control-Allow-Methods"@
}

pub open spec fn allow_headers() -> Seq<char> {
    "Access-Control-Allow-Headers"@
}

pub open spec fn frame_options() -> Seq<char> {
    "X-Frame-Options"@
}

/// The headers of a response once it is finalized: the three CORS headers
/// set, any frame-blocking header removed.
pub open spec fn finalized(headers: Seq<(Seq<char>, Seq<char>)>) -> Seq<(Seq<char>, Seq<char>)> {
    let h = with_header(headers, allow_origin(), "*"@);
    let h = with_header(h, allow_methods(), "*"@);
    let h = with_header(h, allow_headers(), "Content-Type"@);
    without(h, frame_options())
}

pub open spec fn not_found_text(uri: Seq<char>) -> Seq<char> {
    "I couldn't find '"@ + uri + "'. Try something else?"@
}

pub open spec fn internal_error_text() -> Seq<char> {
    "Whoops! Looks like we messed up."@
}

proof fn lemma_without_removes(headers: Seq<(Seq<char>, Seq<char>)>, name: Seq<char>)
    ensures
        forall|i: int|
            0 <= i < without(headers, name).len() ==> !same_name(
                (#[trigger] without(headers, name)[i]).0,
                name,
            ),
    decreases headers.len(),
{
    if headers.len() > 0 {
        let rest = without(headers.drop_last(), name);
        lemma_without_removes(headers.drop_last(), name);
        assert forall|i: int| 0 <= i < without(headers, name).len() implies !same_name(
            (#[trigger] without(headers, name)[i]).0,
            name,
        ) by {
            if i < rest.len() {
                assert(without(headers, name)[i] == rest[i]);
            }
        }
    }
}

proof fn lemma_without_keeps(headers: Seq<(Seq<char>, Seq<char>)>, name: Seq<char>, h: (Seq<char>, Seq<char>))
    requires
        headers.contains(h),
        !same_name(h.0, name),
    ensures
        without(headers, name).contains(h),
    decreases headers.len(),
{
    let rest = without(headers.drop_last(), name);
    if headers.last() == h {
        assert(without(headers, name).last() == h);
    } else {
        let i = choose|i: int| 0 <= i < headers.len() && headers[i] == h;
        assert(headers.drop_last()[i] == h);
        lemma_without_keeps(headers.drop_last(), name, h);
        let j = choose|j: int| 0 <= j < rest.len() && rest[j] == h;
        if !same_name(headers.last().0, name) {
            assert(rest.push(headers.last())[j] == h);
        }
    }
}

/// Every finalized response allows any origin, any method and the
/// `Content-Type` request header, and carries no `X-Frame-Options` header,
/// whatever headers it had before.
pub proof fn lemma_finalized_headers(headers: Seq<(Seq<char>, Seq<char>)>)
    ensures
        finalized(headers).contains((allow_origin(), "*"@)),
        finalized(headers).contains((allow_methods(), "*"@)),
        finalized(headers).contains((allow_headers(), "Content-Type"@)),
        forall|i: int|
            0 <= i < finalized(headers).len() ==> !same_name(
                (#[trigger] finalized(headers)[i]).0,
                frame_options(),
            ),
{
    reveal_strlit("Access-Control-Allow-Origin");
    reveal_strlit("Access-Control-Allow-Methods");
    reveal_strlit("Access-Control-Allow-Headers");
    reveal_strlit("X-Frame-Options");
    assert(!same_name(allow_origin(), allow_methods()));
    assert(!same_name(allow_origin(), allow_headers()));
    assert(!same_name(allow_methods(), allow_headers())) by {
        assert(allow_methods()[21] == 'M');
        assert(allow_headers()[21] == 'H');
    }
    assert(!same_name(allow_origin(), frame_options()));
    assert(!same_name(allow_methods(), frame_options()));
    assert(!same_name(allow_headers(), frame_options()));
    let h1 = with_header(headers, allow_origin(), "*"@);
    let h2 = with_header(h1, allow_methods(), "*"@);
    let h3 = with_header(h2, allow_headers(), "Content-Type"@);
    assert(h1.contains((allow_origin(), "*"@))) by {
        assert(h1.last() == (allow_origin(), "*"@));
    }
    assert(h2.contains((allow_methods(), "*"@))) by {
        assert(h2.last() == (allow_methods(), "*"@));
    }
    assert(h3.contains((allow_headers(), "Content-Type"@))) by {
        assert(h3.last() == (allow_headers(), "Content-Type"@));
    }
    lemma_without_keeps(h1, allow_methods(), (allow_origin(), "*"@));
    assert(without(h1, allow_methods()).push((allow_methods(), "*"@)).contains((allow_origin(), "*"@))) by {
        let j = choose|j: int| 0 <= j < without(h1, allow_methods()).len() && without(h1, allow_methods())[j] == (allow_origin(), "*"@);
        assert(h2[j] == (allow_origin(), "*"@));
    }
    lemma_without_keeps(h2, allow_headers(), (allow_origin(), "*"@));
    lemma_without_keeps(h2, allow_headers(), (allow_methods(), "*"@));
    assert(h3.contains((allow_origin(), "*"@))) by {
        let j = choose|j: int| 0 <= j < without(h2, allow_headers()).len() && without(h2, allow_headers())[j] == (allow_origin(), "*"@);
        assert(h3[j] == (allow_origin(), "*"@));
    }
    assert(h3.contains((allow_methods(), "*"@))) by {
        let j = choose|j: int| 0 <= j < without(h2, allow_headers()).len() && without(h2, allow_headers())[j] == (allow_methods(), "*"@);
        assert(h3[j] == (allow_methods(), "*"@));
    }
    lemma_without_keeps(h3, frame_options(), (allow_origin(), "*"@));
    lemma_without_keeps(h3, frame_options(), (allow_methods(), "*"@));
    lemma_without_keeps(h3, frame_options(), (allow_headers(), "Content-Type"@));
    lemma_without_removes(h3, frame_options());
}

fn same_char_exec(a: char, b: char) -> (r: bool)
    ensures
        r == same_char(a, b),
{
    a == b || ('A' <= a && a <= 'Z' && (a as u32) + 32 == b as u32) || ('A' <= b && b <= 'Z'
        && (b as u32) + 32 == a as u32)
}

/// Whether two header names are equal, ASCII case aside.
pub fn same_header_name(a: &str, b: &str) -> (r: bool)
    ensures
        r == same_name(a@, b@),
{
    let n = a.unicode_len();
    if n != b.unicode_len() {
        return false;
    }
    let mut i: usize = 0;
    while i < n
        invariant
            n == a@.len(),
            n == b@.len(),
            i <= n,
            forall|j: int| 0 <= j < i ==> same_char(#[trigger] a@[j], b@[j]),
        decreases n - i,
    {
        if !same_char_exec(a.get_char(i), b.get_char(i)) {
            return false;
        }
        i += 1;
    }
    true
}

/// Removes every header named `name`, keeping the order of the others.
pub fn remove_header(headers: &mut Vec<Header>, name: &str)
    ensures
        final(headers).deep_view() == without(old(headers).deep_view(), name@),
{
    let ghost h = headers.deep_view();
    let mut kept: Vec<Header> = Vec::new();
    let mut i: usize = 0;
    proof {
        assert(h.take(0) =~= Seq::<(Seq<char>, Seq<char>)>::empty());
        assert(kept.deep_view() =~= Seq::<(Seq<char>, Seq<char>)>::empty());
    }
    while i < headers.len()
        invariant
            h == headers.deep_view(),
            i <= headers.len(),
            kept.deep_view() == without(h.take(i as int), name@),
        decreases headers.len() - i,
    {
        let ghost prev = kept.deep_view();
        proof {
            assert(h.take(i + 1).drop_last() =~= h.take(i as int));
        }
        let header = &headers[i];
        if !same_header_name(header.0.as_str(), name) {
            kept.push((header.0.clone(), header.1.clone()));
            proof {
                assert(kept.deep_view() =~= prev.push(h[i as int]));
            }
        }
        i += 1;
    }
    proof {
        assert(h.take(headers.len() as int) =~= h);
    }
    *headers = kept;
}

/// Sets the header `name` to `value`, replacing any header of that name.
pub fn set_header(headers: &mut Vec<Header>, name: &str, value: &str)
    ensures
        final(headers).deep_view() == with_header(old(headers).deep_view(), name@, value@),
{
    remove_header(headers, name);
    let ghost h = headers.deep_view();
    headers.push((String::from_str(name), String::from_str(value)));
    proof {
        assert(headers.deep_view() =~= h.push((name@, value@)));
    }
}

/// The step every outgoing response passes through, errors included: allows
/// any origin, any method and the `Content-Type` request header, and drops
/// `X-Frame-Options` so that the content can be framed.
pub fn finalize_headers(headers: &mut Vec<Header>)
    ensures
        final(headers).deep_view() == finalized(old(headers).deep_view()),
{
    set_header(headers, "Access-Control-Allow-Origin", "*");
    set_header(headers, "Access-Control-Allow-Methods", "*");
    set_header(headers, "Access-Control-Allow-Headers", "Content-Type");
    remove_header(headers, "X-Frame-Options");
}

/// The body of the 404 catcher for the request URI `uri`.
pub fn not_found(uri: &str) -> (r: String)
    ensures
        r@ == not_found_text(uri@),
{
    let mut r = String::from_str("I couldn't find '");
    r.append(uri);
    r.append("'. Try something else?");
    r
}

/// The body of the 500 catcher.
pub fn internal_error() -> (r: String)
    ensures
        r@ == internal_error_text(),
{
    String::from_str("Whoops! Looks like we messed up.")
}

/// What a response carries.
pub enum Body {
    /// The bytes of the file at this path, streamed.
    File(String),
    /// This text.
    Text(String),
}

/// A response before its headers are finalized.
pub struct Reply {
    pub status: u16,
    pub body: Body,
}

/// The reply to a resolved request for `uri`: the file with status 200, or
/// the 404 catcher's text.
pub fn respond(target: &ResolvedTarget, uri: &str) -> (r: Reply)
    ensures
        match target@ {
            Some(p) => r.status == 200 && (r.body matches Body::File(f) && f@ == p),
            None => r.status == 404 && (r.body matches Body::Text(t) && t@ == not_found_text(uri@)),
        },
{
    match target {
        ResolvedTarget::Found(p) => Reply { status: 200, body: Body::File(p.clone()) },
        ResolvedTarget::NotFound => Reply { status: 404, body: Body::Text(not_found(uri)) },
    }
}

/// The reply when serving fails inside the server (a file that was found
/// could not be opened or read): the 500 catcher's text.
pub fn respond_internal_error() -> (r: Reply)
    ensures
        r.status == 500,
        r.body matches Body::Text(t) && t@ == internal_error_text(),
{
    Reply { status: 500, body: Body::Text(internal_error()) }
}

} // verus!
