//! The object path under which the portal answers a request.

use vstd::prelude::*;

use crate::errors::{DBusFault, FaultView};
use crate::text::chars_of;

verus! {

/// A character of a path element.
pub open spec fn is_name_char(c: char) -> bool {
    '0' <= c <= '9' || 'A' <= c <= 'Z' || 'a' <= c <= 'z' || c == '_'
}

/// An object path of the message bus: elements of letters, digits and underscores, each after a
/// slash, or the slash alone.
pub open spec fn is_object_path(s: Seq<char>) -> bool {
    &&& s.len() > 0
    &&& s[0] == '/'
    &&& forall|i: int| 0 <= i < s.len() ==> #[trigger] s[i] == '/' || is_name_char(s[i])
    &&& forall|i: int| 0 < i < s.len() && #[trigger] s[i] == '/' ==> s[i - 1] != '/'
    &&& s.len() > 1 ==> s.last() != '/'
}

/// The most characters that the bus library is asked to look at; it counts bytes in 31 bits, and
/// a character takes up to four.
pub const PATH_LIMIT: usize = 0x1fff_0000;

/// `dbus::Path::new` accepts a text if and only if it is an object path of the message bus, and
/// keeps it as it is. The text holds no zero character, at which the bus library would stop.
#[verifier::external_body]
fn object_path(text: &str) -> (r: Option<String>)
    requires
        !text@.contains('\0'),
        text@.len() <= PATH_LIMIT,
    ensures
        r is Some <==> is_object_path(text@),
        r matches Some(p) ==> p@ == text@,
{
    dbus::Path::new(text).ok().map(|p| p.to_string())
}

/// `dbus::Error::new_failed` makes an error with the name of a general failure and with this
/// message, which `name` and `message` give back. The message holds no zero character, on which
/// the call would panic.
#[verifier::external_body]
fn failed_fault(message: &str) -> (r: DBusFault)
    requires
        !message@.contains('\0'),
        message@.len() <= 1000,
    ensures
        r@ == general_failure(message@),
{
    let e = dbus::Error::new_failed(message);
    DBusFault { name: e.name().map(str::to_owned), message: e.message().map(str::to_owned) }
}

/// A general failure of the message bus.
pub open spec fn general_failure(message: Seq<char>) -> FaultView {
    FaultView { name: Some("org.freedesktop.DBus.Error.Failed"@), message: Some(message) }
}

/// Without the colons at the start.
pub open spec fn without_colons(s: Seq<char>) -> Seq<char>
    decreases s.len(),
{
    if s.len() > 0 && s[0] == ':' {
        without_colons(s.drop_first())
    } else {
        s
    }
}

/// With underscores for dots.
pub open spec fn underscored(s: Seq<char>) -> Seq<char> {
    s.map_values(
        |c: char|
            if c == '.' {
                '_'
            } else {
                c
            },
    )
}

/// The path of a request, made of the unique name of the connection and the token of the request.
pub open spec fn request_path(unique_name: Seq<char>, handle_token: Seq<char>) -> Seq<char> {
    "/org/freedesktop/portal/desktop/request/"@ + underscored(without_colons(unique_name))
        + seq!['/'] + handle_token
}

/// The unique name as it stands in the path.
fn sender_of(unique_name: &str) -> (r: String)
    ensures
        r@ == underscored(without_colons(unique_name@)),
{
    let v = chars_of(unique_name);
    let mut from: usize = 0;
    assert(v@.skip(0) == v@);
    while from < v.len() && v[from] == ':'
        invariant
            from <= v@.len(),
            without_colons(v@) == without_colons(v@.skip(from as int)),
        decreases v.len() - from,
    {
        assert(v@.skip(from as int).drop_first() == v@.skip(from + 1));
        from += 1;
    }
    let ghost rest = v@.skip(from as int);
    assert(without_colons(v@) == rest);
    let mut r = String::new();
    let mut i: usize = from;
    while i < v.len()
        invariant
            from <= i <= v@.len(),
            rest == v@.skip(from as int),
            r@ =~= underscored(rest.take(i - from)),
        decreases v.len() - i,
    {
        assert(rest.take(i + 1 - from) =~= rest.take(i - from).push(v@[i as int]));
        if v[i] == '.' {
            r.push('_');
        } else {
            r.push(v[i]);
        }
        i += 1;
    }
    assert(rest.take(rest.len() as int) == rest);
    r
}

/// Removing colons leaves a part of the text.
proof fn lemma_without_colons(s: Seq<char>)
    ensures
        without_colons(s).len() <= s.len(),
        forall|c: char| #[trigger] without_colons(s).contains(c) ==> s.contains(c),
    decreases s.len(),
{
    if s.len() > 0 && s[0] == ':' {
        lemma_without_colons(s.drop_first());
        assert forall|c: char| #[trigger] without_colons(s).contains(c) implies s.contains(c) by {
            assert(s.drop_first().contains(c));
            let i = choose|i: int| 0 <= i < s.drop_first().len() && s.drop_first()[i] == c;
            assert(s[i + 1] == c);
        }
    }
}

/// A path of texts without zero characters has none.
proof fn lemma_no_zero(unique_name: Seq<char>, handle_token: Seq<char>)
    requires
        !unique_name.contains('\0'),
        !handle_token.contains('\0'),
    ensures
        !request_path(unique_name, handle_token).contains('\0'),
{
    let p = request_path(unique_name, handle_token);
    let head = "/org/freedesktop/portal/desktop/request/"@;
    let sender = underscored(without_colons(unique_name));
    lemma_without_colons(unique_name);
    reveal_strlit("/org/freedesktop/portal/desktop/request/");
    if p.contains('\0') {
        let i = choose|i: int| 0 <= i < p.len() && p[i] == '\0';
        if i < head.len() {
            assert(p[i] == head[i]);
        } else if i < head.len() + sender.len() {
            let k = i - head.len();
            assert(p[i] == sender[k]);
            assert(without_colons(unique_name).contains(without_colons(unique_name)[k]));
        } else if i > head.len() + sender.len() {
            let k = i - head.len() - sender.len() - 1;
            assert(p[i] == handle_token[k]);
            assert(handle_token.contains(handle_token[k]));
        }
    }
}

/// The object path under which the portal will answer a request, so that the answer can be
/// awaited before the request is made.
pub fn get_request_path(unique_name: &str, handle_token: &str) -> (r: Result<String, DBusFault>)
    requires
        !unique_name@.contains('\0'),
        !handle_token@.contains('\0'),
        unique_name@.len() + handle_token@.len() <= PATH_LIMIT - 100,
    ensures
        match r {
            Ok(p) => {
                &&& is_object_path(request_path(unique_name@, handle_token@))
                &&& p@ == request_path(unique_name@, handle_token@)
            },
            Err(f) => {
                &&& !is_object_path(request_path(unique_name@, handle_token@))
                &&& f@ == general_failure("Failed to construct portal request path"@)
                &&& f@.name == Some("org.freedesktop.DBus.Error.Failed"@)
                &&& f@.message == Some("Failed to construct portal request path"@)
            },
        },
{
    let mut path = "/org/freedesktop/portal/desktop/request/".to_owned();
    path.append(sender_of(unique_name).as_str());
    path.push('/');
    path.append(handle_token);
    proof {
        assert(path@ =~= request_path(unique_name@, handle_token@));
        lemma_no_zero(unique_name@, handle_token@);
        lemma_without_colons(unique_name@);
        reveal_strlit("/org/freedesktop/portal/desktop/request/");
        reveal_strlit("Failed to construct portal request path");
        assert(!"Failed to construct portal request path"@.contains('\0'));
    }
    match object_path(path.as_str()) {
        Some(p) => Ok(p),
        None => Err(failed_fault("Failed to construct portal request path")),
    }
}

/// A path element: letters, digits and underscores, at least one of them.
pub open spec fn is_element(s: Seq<char>) -> bool {
    s.len() > 0 && forall|i: int| 0 <= i < s.len() ==> is_name_char(#[trigger] s[i])
}

/// The path is valid for every unique name that consists, after its colons, of letters, digits,
/// underscores and dots, and for every token of letters, digits and underscores.
pub proof fn law_request_path_is_valid(unique_name: Seq<char>, handle_token: Seq<char>)
    requires
        is_element(underscored(without_colons(unique_name))),
        is_element(handle_token),
    ensures
        is_object_path(request_path(unique_name, handle_token)),
{
    reveal_strlit("/org/freedesktop/portal/desktop/request/");
    let head = "/org/freedesktop/portal/desktop/request/"@;
    let sender = underscored(without_colons(unique_name));
    let p = request_path(unique_name, handle_token);
    assert(p.len() == head.len() + sender.len() + 1 + handle_token.len());
    assert forall|i: int| 0 <= i < p.len() implies #[trigger] p[i] == '/' || is_name_char(p[i]) by {
        if i < head.len() {
            assert(p[i] == head[i]);
        } else if i < head.len() + sender.len() {
            assert(p[i] == sender[i - head.len()]);
        } else if i > head.len() + sender.len() {
            assert(p[i] == handle_token[i - head.len() - sender.len() - 1]);
        }
    }
    assert forall|i: int| 0 < i < p.len() && #[trigger] p[i] == '/' implies p[i - 1] != '/' by {
        if i < head.len() {
            assert(p[i] == head[i]);
            assert(p[i - 1] == head[i - 1]);
        } else if i < head.len() + sender.len() {
            assert(p[i] == sender[i - head.len()]);
        } else if i == head.len() + sender.len() {
            assert(p[i - 1] == sender[sender.len() - 1]);
        } else {
            assert(p[i] == handle_token[i - head.len() - sender.len() - 1]);
        }
    }
    assert(p.last() == handle_token.last());
}

/// The path of a request is that of all requests, followed by the unique name without its leading
/// colons and with underscores in place of its dots, a slash and the token.
pub proof fn law_request_path_is_made_of_its_parts(
    colons: nat,
    rest: Seq<char>,
    token: Seq<char>,
    i: int,
)
    requires
        rest.len() > 0 ==> rest[0] != ':',
    ensures
        ({
            let head = "/org/freedesktop/portal/desktop/request/"@;
            let name = Seq::new(colons, |k: int| ':') + rest;
            let path = request_path(name, token);
            &&& path.len() == head.len() + rest.len() + 1 + token.len()
            &&& path.take(head.len() as int) == head
            &&& 0 <= i < rest.len() ==> path[head.len() + i] == if rest[i] == '.' {
                '_'
            } else {
                rest[i]
            }
            &&& path[(head.len() + rest.len()) as int] == '/'
            &&& path.skip((head.len() + rest.len() + 1) as int) == token
        }),
{
    let head = "/org/freedesktop/portal/desktop/request/"@;
    let name = Seq::new(colons, |k: int| ':') + rest;
    let path = request_path(name, token);
    lemma_colons_are_removed(colons, rest);
    assert(path.take(head.len() as int) =~= head);
    assert(path.skip((head.len() + rest.len() + 1) as int) =~= token);
}

/// Leading colons are removed, and nothing else.
proof fn lemma_colons_are_removed(colons: nat, rest: Seq<char>)
    requires
        rest.len() > 0 ==> rest[0] != ':',
    ensures
        without_colons(Seq::new(colons, |k: int| ':') + rest) == rest,
    decreases colons,
{
    let name = Seq::new(colons, |k: int| ':') + rest;
    if colons == 0 {
        assert(name =~= rest);
    } else {
        assert(name.drop_first() =~= Seq::new((colons - 1) as nat, |k: int| ':') + rest);
        lemma_colons_are_removed((colons - 1) as nat, rest);
    }
}

/// An object path is a slash, or a path with one more element of letters, digits and underscores
/// after a slash. It starts with a slash, ends with none unless it is one, and has no two in a row.
pub proof fn law_object_paths_grow_by_elements(path: Seq<char>, element: Seq<char>, i: int)
    requires
        element.len() > 0,
        forall|k: int|
            0 <= k < element.len() ==> '0' <= #[trigger] element[k] <= '9' || 'A' <= element[k]
                <= 'Z' || 'a' <= element[k] <= 'z' || element[k] == '_',
    ensures
        is_object_path(seq!['/']),
        is_object_path(seq!['/'] + element),
        is_object_path(path) && path.len() > 1 ==> is_object_path(path + seq!['/'] + element),
        is_object_path(path) ==> !is_object_path(path + seq!['/', '/'] + element),
        is_object_path(path) ==> !is_object_path(path + element + seq!['/']),
        !is_object_path(Seq::empty()),
        path.len() > 0 && path[0] != '/' ==> !is_object_path(path),
        0 <= i < path.len() && is_object_path(path) ==> path[i] == '/' || '0' <= path[i] <= '9'
            || 'A' <= path[i] <= 'Z' || 'a' <= path[i] <= 'z' || path[i] == '_',
{
    let one = seq!['/'] + element;
    assert forall|k: int| 0 <= k < one.len() implies #[trigger] one[k] == '/' || is_name_char(
        one[k],
    ) by {
        if k > 0 {
            assert(one[k] == element[k - 1]);
        }
    }
    assert forall|k: int| 0 < k < one.len() && #[trigger] one[k] == '/' implies one[k - 1]
        != '/' by {
        assert(one[k] == element[k - 1]);
    }
    assert(one.last() == element[element.len() - 1]);
    if is_object_path(path) && path.len() > 1 {
        let more = path + seq!['/'] + element;
        assert forall|k: int| 0 <= k < more.len() implies #[trigger] more[k] == '/'
            || is_name_char(more[k]) by {
            if k < path.len() {
                assert(more[k] == path[k]);
            } else if k > path.len() {
                assert(more[k] == element[k - path.len() - 1]);
            }
        }
        assert forall|k: int| 0 < k < more.len() && #[trigger] more[k] == '/' implies more[k - 1]
            != '/' by {
            if k < path.len() {
                assert(more[k] == path[k]);
                assert(more[k - 1] == path[k - 1]);
            } else if k == path.len() {
                assert(more[k - 1] == path.last());
            } else {
                assert(more[k] == element[k - path.len() - 1]);
            }
        }
        assert(more.last() == element[element.len() - 1]);
    }
    if is_object_path(path) {
        let twice = path + seq!['/', '/'] + element;
        let k = path.len() as int + 1;
        assert(twice[k] == '/' && twice[k - 1] == '/');
        let open = path + element + seq!['/'];
        assert(open.last() == '/');
    }
}

} // verus!
