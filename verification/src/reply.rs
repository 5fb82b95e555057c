//! Reading the replies of the portal.

use vstd::prelude::*;

use crate::capturable::PwStreamInfo;
use crate::errors::text_of;
use crate::text::same_text;

verus! {

/// A value of a reply: how it reads as a number and as a text, and the values inside it, where it
/// is a container.
#[derive(Debug)]
pub struct Arg {
    pub as_u64: Option<u64>,
    pub as_i64: Option<i64>,
    pub as_str: Option<String>,
    pub items: Option<Vec<Arg>>,
}

/// The results of a reply, each under its name.
#[derive(Debug)]
pub struct Reply {
    pub results: Vec<(String, Arg)>,
}

impl Arg {
    /// The values inside a container.
    pub open spec fn parts(self) -> Option<Seq<Arg>> {
        match self.items {
            Some(v) => Some(v@),
            None => None,
        }
    }

    /// The value as a signed number, or zero.
    pub open spec fn number(self) -> i64 {
        match self.as_i64 {
            Some(n) => n,
            None => 0,
        }
    }
}

/// The result with this name.
pub open spec fn result_named(results: Seq<(String, Arg)>, name: Seq<char>) -> Option<Arg>
    decreases results.len(),
{
    if results.len() == 0 {
        None
    } else if results[0].0@ == name {
        Some(results[0].1)
    } else {
        result_named(results.drop_first(), name)
    }
}

impl Reply {
    /// The result with this name.
    pub open spec fn named(self, name: Seq<char>) -> Option<Arg> {
        result_named(self.results@, name)
    }

    /// The result with this name as a text.
    pub open spec fn text_named(self, name: Seq<char>) -> Option<Seq<char>> {
        match self.named(name) {
            Some(a) => text_of(a.as_str),
            None => None,
        }
    }

    /// Finds a result.
    pub fn get(&self, name: &str) -> (r: Option<&Arg>)
        ensures
            match r {
                Some(a) => self.named(name@) == Some(*a),
                None => self.named(name@) is None,
            },
    {
        let mut i: usize = 0;
        assert(self.results@.skip(0) == self.results@);
        while i < self.results.len()
            invariant
                i <= self.results@.len(),
                self.named(name@) == result_named(self.results@.skip(i as int), name@),
            decreases self.results.len() - i,
        {
            assert(self.results@.skip(i as int).drop_first() == self.results@.skip(i + 1));
            if same_text(self.results[i].0.as_str(), name) {
                return Some(&self.results[i].1);
            }
            i += 1;
        }
        None
    }
}

/// The values at even places.
pub open spec fn even_places(s: Seq<Arg>) -> Seq<Arg> {
    Seq::new(((s.len() + 1) / 2) as nat, |i: int| s[2 * i])
}

/// The values at odd places.
pub open spec fn odd_places(s: Seq<Arg>) -> Seq<Arg> {
    Seq::new((s.len() / 2) as nat, |i: int| s[2 * i + 1])
}

/// The texts among some values.
pub open spec fn texts_among(s: Seq<Arg>) -> Seq<Seq<char>> {
    s.filter_map(|a: Arg| text_of(a.as_str))
}

/// The last of the first `n` values whose key is `name`.
pub open spec fn last_under(
    keys: Seq<Seq<char>>,
    values: Seq<Arg>,
    n: nat,
    name: Seq<char>,
) -> Option<Arg>
    decreases n,
{
    if n == 0 {
        None
    } else if keys[n - 1] == name {
        Some(values[n - 1])
    } else {
        last_under(keys, values, (n - 1) as nat, name)
    }
}

/// The attribute with this name in a dictionary, which is a list of keys and values in turn. The
/// keys that are texts are paired with the values in order, and a later pair replaces an earlier
/// one.
pub open spec fn attribute(dict: Seq<Arg>, name: Seq<char>) -> Option<Arg> {
    let keys = texts_among(even_places(dict));
    let values = odd_places(dict);
    last_under(
        keys,
        values,
        if keys.len() <= values.len() {
            keys.len()
        } else {
            values.len()
        },
        name,
    )
}

/// The numbers in the first container among some values.
pub open spec fn first_numbers(s: Seq<Arg>) -> Option<Seq<i64>>
    decreases s.len(),
{
    if s.len() == 0 {
        None
    } else {
        match s[0].parts() {
            Some(p) => Some(p.map_values(|a: Arg| a.number())),
            None => first_numbers(s.drop_first()),
        }
    }
}

/// The pair in the first container among some values, where there is just a pair in it.
pub open spec fn first_pair(s: Seq<Arg>) -> Option<(i64, i64)> {
    match first_numbers(s) {
        Some(v) => if v.len() == 2 {
            Some((v[0], v[1]))
        } else {
            None
        },
        None => None,
    }
}

/// A signed number cut to the machine's unsigned size.
pub open spec fn wrapped_usize(v: i64) -> int {
    v as int % (usize::MAX + 1)
}

/// A signed number cut to 32 bits with sign.
pub open spec fn wrapped_i32(v: i64) -> int {
    let m = v as int % 0x1_0000_0000;
    if m < 0x8000_0000 {
        m
    } else {
        m - 0x1_0000_0000
    }
}

/// Numbers are cut as a cast cuts them.
pub proof fn law_numbers_wrap_like_casts(v: i64)
    ensures
        wrapped_usize(v) == v as usize,
        wrapped_i32(v) == v as i32,
{
    let wide: u64 = v as u64;
    assert(v >= 0 ==> v as u64 == v) by (bit_vector);
    assert(v < 0 ==> v as u64 == v + 0x1_0000_0000_0000_0000) by (bit_vector);
    assert(v as u32 == (v as u64) % 0x1_0000_0000u64) by (bit_vector);
    if usize::BITS == 64 {
        assert(usize::BITS == 64 ==> v as usize == v as u64) by (bit_vector);
        assert(usize::MAX + 1 == 0x1_0000_0000_0000_0000);
        assert(wrapped_usize(v) == v as int % 0x1_0000_0000_0000_0000);
    } else {
        assert(usize::BITS == 32 ==> v as usize == v as u32) by (bit_vector);
        assert(usize::MAX + 1 == 0x1_0000_0000);
        assert(wrapped_usize(v) == v as int % 0x1_0000_0000);
    }
    assert(v as i32 == (v as u64) as i32) by (bit_vector);
    assert(wide % 0x1_0000_0000u64 < 0x8000_0000u64 ==> wide as i32 == wide % 0x1_0000_0000u64)
        by (bit_vector);
    assert(wide % 0x1_0000_0000u64 >= 0x8000_0000u64 ==> wide as i32 == wide % 0x1_0000_0000u64
        - 0x1_0000_0000) by (bit_vector);
}

/// Cuts a number to the machine's unsigned size.
fn to_usize(v: i64) -> (r: usize)
    ensures
        r == wrapped_usize(v),
{
    proof {
        law_numbers_wrap_like_casts(v);
    }
    v as usize
}

/// Cuts a number to 32 bits.
fn to_i32(v: i64) -> (r: i32)
    ensures
        r == wrapped_i32(v),
{
    proof {
        law_numbers_wrap_like_casts(v);
    }
    v as i32
}

/// The size in a stream's attributes; `Some(None)` where there is an attribute without a pair.
pub open spec fn stream_size(dict: Seq<Arg>) -> Option<Option<(i64, i64)>> {
    match attribute(dict, "size"@) {
        Some(a) => match a.parts() {
            Some(p) => Some(first_pair(p)),
            None => None,
        },
        None => None,
    }
}

/// The position in a stream's attributes; `Some(None)` where there is none, or an attribute
/// without a pair.
pub open spec fn stream_position(dict: Seq<Arg>) -> Option<Option<(i64, i64)>> {
    match attribute(dict, "position"@) {
        Some(a) => match a.parts() {
            Some(p) => Some(first_pair(p)),
            None => None,
        },
        None => Some(None),
    }
}

/// The source type in a stream's attributes; zero where there is none.
pub open spec fn stream_source_type(dict: Seq<Arg>) -> Option<u64> {
    match attribute(dict, "source_type"@) {
        Some(a) => a.as_u64,
        None => Some(0),
    }
}

/// The stream that a node number and attributes describe.
pub open spec fn described_stream(path: u64, dict: Seq<Arg>) -> Option<PwStreamInfo> {
    match (stream_source_type(dict), stream_size(dict), stream_position(dict)) {
        (Some(source_type), Some(size), Some(position)) => Some(
            PwStreamInfo {
                path,
                source_type,
                position: match position {
                    Some(p) => (wrapped_i32(p.0) as i32, wrapped_i32(p.1) as i32),
                    None => (0, 0),
                },
                size: match size {
                    Some(s) => (wrapped_usize(s.0) as usize, wrapped_usize(s.1) as usize),
                    None => (0, 0),
                },
            },
        ),
        _ => None,
    }
}

/// The node number and the attributes of a stream.
pub open spec fn stream_parts(a: Arg) -> Option<(u64, Seq<Arg>)> {
    match a.parts() {
        Some(p) => if p.len() >= 2 {
            match (p[0].as_u64, p[1].parts()) {
                (Some(path), Some(dict)) => Some((path, dict)),
                _ => None,
            }
        } else {
            None
        },
        None => None,
    }
}

/// The stream that a value describes, where it describes one.
pub open spec fn stream_of(a: Arg) -> Option<PwStreamInfo> {
    match stream_parts(a) {
        Some(p) => described_stream(p.0, p.1),
        None => None,
    }
}

/// Whether a value describes a stream with a position.
pub open spec fn is_placed_stream(a: Arg) -> bool {
    stream_of(a) is Some && match stream_parts(a) {
        Some(p) => stream_position(p.1) matches Some(Some(_)),
        None => false,
    }
}

/// The values that describe the streams of a reply.
pub open spec fn stream_args(reply: Reply) -> Seq<Arg> {
    match reply.named("streams"@) {
        Some(v) => match v.parts() {
            Some(p) => if p.len() > 0 {
                match p[0].parts() {
                    Some(s) => s,
                    None => Seq::empty(),
                }
            } else {
                Seq::empty()
            },
            None => Seq::empty(),
        },
        None => Seq::empty(),
    }
}

/// The streams of a reply.
pub open spec fn reply_streams(reply: Reply) -> Seq<PwStreamInfo> {
    stream_args(reply).filter_map(|a: Arg| stream_of(a))
}

/// Whether a stream of a reply has a position.
pub open spec fn reply_has_position(reply: Reply) -> bool {
    exists|i: int|
        0 <= i < stream_args(reply).len() && is_placed_stream(#[trigger] stream_args(reply)[i])
}

/// The keys of a dictionary that are texts, in order.
fn text_keys(dict: &Vec<Arg>) -> (r: Vec<&str>)
    ensures
        r@.map_values(|k: &str| k@) == texts_among(even_places(dict@)),
{
    let mut r: Vec<&str> = Vec::new();
    let ghost places = even_places(dict@);
    let ghost text = |a: Arg| text_of(a.as_str);
    let count: usize = dict.len() / 2 + dict.len() % 2;
    let mut n: usize = 0;
    while n < count
        invariant
            n <= count == places.len(),
            count == dict.len() / 2 + dict.len() % 2,
            places == even_places(dict@),
            text == (|a: Arg| text_of(a.as_str)),
            r@.map_values(|k: &str| k@) == places.take(n as int).filter_map(text),
        decreases count - n,
    {
        assert(places.take(n + 1).drop_last() =~= places.take(n as int));
        let key = &dict[2 * n];
        assert(places.take(n + 1).last() == *key);
        let ghost before = r@;
        match &key.as_str {
            Some(k) => {
                r.push(k.as_str());
                assert(r@.map_values(|k: &str| k@) =~= before.map_values(|k: &str| k@).push(k@));
            },
            None => {},
        }
        n += 1;
    }
    assert(places.take(count as int) == places);
    r
}

/// Finds an attribute.
fn find_attribute<'a>(dict: &'a Vec<Arg>, name: &str) -> (r: Option<&'a Arg>)
    ensures
        match r {
            Some(a) => attribute(dict@, name@) == Some(*a),
            None => attribute(dict@, name@) is None,
        },
{
    let keys = text_keys(dict);
    let ghost names = keys@.map_values(|k: &str| k@);
    let values: usize = dict.len() / 2;
    let mut n: usize = if keys.len() <= values {
        keys.len()
    } else {
        values
    };
    while n > 0
        invariant
            names == keys@.map_values(|k: &str| k@),
            n <= keys@.len(),
            n <= dict.len() / 2,
            attribute(dict@, name@) == last_under(names, odd_places(dict@), n as nat, name@),
        decreases n,
    {
        assert(names[n - 1] == keys@[n - 1]@);
        if same_text(keys[n - 1], name) {
            let a = &dict[2 * (n - 1) + 1];
            assert(odd_places(dict@)[n - 1] == *a);
            return Some(a);
        }
        n -= 1;
    }
    None
}

/// Reads the pair in the first container among some values.
fn find_pair(items: &Vec<Arg>) -> (r: Option<(i64, i64)>)
    ensures
        r == first_pair(items@),
{
    let mut i: usize = 0;
    assert(items@.skip(0) == items@);
    while i < items.len()
        invariant
            i <= items@.len(),
            first_numbers(items@) == first_numbers(items@.skip(i as int)),
        decreases items.len() - i,
    {
        assert(items@.skip(i as int).drop_first() == items@.skip(i + 1));
        match &items[i].items {
            Some(p) => {
                if p.len() == 2 {
                    return Some((p[0].get_number(), p[1].get_number()));
                }
                return None;
            },
            None => {},
        }
        i += 1;
    }
    None
}

impl Arg {
    /// The value as a signed number, or zero.
    fn get_number(&self) -> (r: i64)
        ensures
            r == self.number(),
    {
        match self.as_i64 {
            Some(n) => n,
            None => 0,
        }
    }
}

/// Reads the stream that a node number and attributes describe, and whether it has a position.
fn read_described(path: u64, dict: &Vec<Arg>) -> (r: Option<(PwStreamInfo, bool)>)
    ensures
        match r {
            Some(s) => described_stream(path, dict@) == Some(s.0) && s.1 == (stream_position(
                dict@,
            ) matches Some(Some(_))),
            None => described_stream(path, dict@) is None,
        },
{
    let source_type: u64 = match find_attribute(dict, "source_type") {
        Some(a) => match a.as_u64 {
            Some(n) => n,
            None => {
                return None;
            },
        },
        None => 0,
    };
    let size: (usize, usize) = match find_attribute(dict, "size") {
        Some(a) => match &a.items {
            Some(p) => match find_pair(p) {
                Some(v) => (to_usize(v.0), to_usize(v.1)),
                None => (0, 0),
            },
            None => {
                return None;
            },
        },
        None => {
            return None;
        },
    };
    let mut placed = false;
    let position: (i32, i32) = match find_attribute(dict, "position") {
        Some(a) => match &a.items {
            Some(p) => match find_pair(p) {
                Some(v) => {
                    placed = true;
                    (to_i32(v.0), to_i32(v.1))
                },
                None => (0, 0),
            },
            None => {
                return None;
            },
        },
        None => (0, 0),
    };
    Some((PwStreamInfo { path, source_type, position, size }, placed))
}

/// Reads the stream that a value describes, and whether it has a position.
fn read_stream(a: &Arg) -> (r: Option<(PwStreamInfo, bool)>)
    ensures
        match r {
            Some(s) => stream_of(*a) == Some(s.0) && s.1 == is_placed_stream(*a),
            None => stream_of(*a) is None,
        },
{
    match &a.items {
        Some(p) => {
            if p.len() < 2 {
                return None;
            }
            match (p[0].as_u64, &p[1].items) {
                (Some(path), Some(dict)) => read_described(path, dict),
                _ => None,
            }
        },
        None => None,
    }
}

/// Reads the streams of a reply. Values that do not describe a stream are left out. The flag is
/// set if a stream has a position.
pub fn streams_from_response(reply: &Reply, has_position: &mut bool) -> (r: Vec<PwStreamInfo>)
    ensures
        r@ == reply_streams(*reply),
        *final(has_position) == (*old(has_position) || reply_has_position(*reply)),
{
    let mut r: Vec<PwStreamInfo> = Vec::new();
    let streams: &Vec<Arg> = match reply.get("streams") {
        Some(v) => match &v.items {
            Some(p) => {
                if p.len() == 0 {
                    return r;
                }
                match &p[0].items {
                    Some(s) => s,
                    None => {
                        return r;
                    },
                }
            },
            None => {
                return r;
            },
        },
        None => {
            return r;
        },
    };
    let ghost read = |a: Arg| stream_of(a);
    let ghost args = stream_args(*reply);
    let mut i: usize = 0;
    while i < streams.len()
        invariant
            i <= streams@.len(),
            args == streams@,
            read == (|a: Arg| stream_of(a)),
            r@ == args.take(i as int).filter_map(read),
            *has_position == (*old(has_position) || exists|k: int|
                0 <= k < i && is_placed_stream(#[trigger] args[k])),
        decreases streams.len() - i,
    {
        assert(args.take(i + 1).drop_last() =~= args.take(i as int));
        assert(args.take(i + 1).last() == args[i as int]);
        match read_stream(&streams[i]) {
            Some(s) => {
                r.push(s.0);
                if s.1 {
                    *has_position = true;
                }
            },
            None => {},
        }
        i += 1;
    }
    assert(args.take(args.len() as int) == args);
    r
}

/// Of several results with one name the first counts. `k` is its index, or the number of results
/// where none has the name.
pub proof fn law_first_result_counts(results: Seq<(String, Arg)>, name: Seq<char>, k: int)
    requires
        0 <= k <= results.len(),
        k < results.len() ==> results[k].0@ == name,
        forall|i: int| 0 <= i < k ==> (#[trigger] results[i]).0@ != name,
    ensures
        k < results.len() ==> result_named(results, name) == Some(results[k].1),
        k == results.len() ==> result_named(results, name) is None,
    decreases results.len(),
{
    if k > 0 {
        let rest = results.drop_first();
        assert(results[0].0@ != name);
        assert forall|i: int| 0 <= i < k - 1 implies (#[trigger] rest[i]).0@ != name by {
            assert(rest[i] == results[i + 1]);
        }
        law_first_result_counts(rest, name, k - 1);
    }
}

/// `at` lists, in order, the places of the values that `f` reads.
pub open spec fn lists_read<A, B>(s: Seq<A>, f: spec_fn(A) -> Option<B>, at: Seq<int>) -> bool {
    &&& forall|m: int| 0 <= m < at.len() ==> 0 <= #[trigger] at[m] < s.len()
    &&& forall|m: int| 0 <= m < at.len() ==> f(s[#[trigger] at[m]]) is Some
    &&& forall|m: int, n: int| 0 <= m < n < at.len() ==> #[trigger] at[m] < #[trigger] at[n]
    &&& forall|i: int| 0 <= i < s.len() && f(#[trigger] s[i]) is Some ==> at.contains(i)
}

/// What is read stands at the listed places.
proof fn lemma_read_in_order<A, B>(s: Seq<A>, f: spec_fn(A) -> Option<B>, at: Seq<int>)
    requires
        lists_read(s, f, at),
    ensures
        s.filter_map(f).len() == at.len(),
        forall|m: int|
            0 <= m < at.len() ==> Some(#[trigger] s.filter_map(f)[m]) == f(s[at[m]]),
    decreases s.len(),
{
    if s.len() == 0 {
        if at.len() > 0 {
            assert(at[0] < s.len());
        }
    } else {
        let short = s.drop_last();
        let last = s.len() - 1;
        if f(s[last]) is Some {
            assert(at.contains(last));
            let m = choose|m: int| 0 <= m < at.len() && at[m] == last;
            if m < at.len() - 1 {
                assert(at[m] < at[at.len() - 1]);
            }
            assert(at.last() == last);
            let before = at.drop_last();
            assert forall|m: int| 0 <= m < before.len() implies 0 <= #[trigger] before[m]
                < short.len() by {
                assert(before[m] == at[m]);
                assert(at[m] < at[at.len() - 1]);
            }
            assert forall|m: int| 0 <= m < before.len() implies f(
                short[#[trigger] before[m]],
            ) is Some by {
                assert(before[m] == at[m] && at[m] < at[at.len() - 1]);
            }
            assert forall|i: int| 0 <= i < short.len() && f(#[trigger] short[i]) is Some
                implies before.contains(i) by {
                assert(s[i] == short[i]);
                assert(at.contains(i));
                let m = choose|m: int| 0 <= m < at.len() && at[m] == i;
                assert(before[m] == i);
            }
            lemma_read_in_order(short, f, before);
            assert forall|m: int| 0 <= m < at.len() implies Some(#[trigger] s.filter_map(f)[m])
                == f(s[at[m]]) by {
                if m < before.len() {
                    assert(before[m] == at[m]);
                    assert(0 <= before[m] < short.len());
                    assert(s.filter_map(f)[m] == short.filter_map(f)[m]);
                    assert(Some(short.filter_map(f)[m]) == f(short[before[m]]));
                }
            }
        } else {
            assert forall|m: int| 0 <= m < at.len() implies 0 <= #[trigger] at[m] < short.len() by {
                assert(f(s[at[m]]) is Some);
            }
            assert forall|m: int| 0 <= m < at.len() implies f(short[#[trigger] at[m]]) is Some by {
                assert(0 <= at[m] < short.len());
            }
            assert forall|i: int| 0 <= i < short.len() && f(#[trigger] short[i]) is Some
                implies at.contains(i) by {
                assert(s[i] == short[i]);
            }
            lemma_read_in_order(short, f, at);
            assert(s.filter_map(f) == short.filter_map(f));
            assert forall|m: int| 0 <= m < at.len() implies Some(#[trigger] s.filter_map(f)[m])
                == f(s[at[m]]) by {
                assert(0 <= at[m] < short.len());
                assert(Some(short.filter_map(f)[m]) == f(short[at[m]]));
            }
        }
    }
}

/// The last value with a key is found.
proof fn lemma_last_under(
    keys: Seq<Seq<char>>,
    values: Seq<Arg>,
    n: nat,
    name: Seq<char>,
    k: int,
)
    requires
        -1 <= k < n,
        k >= 0 ==> keys[k] == name,
        forall|i: int| k < i < n ==> #[trigger] keys[i] != name,
    ensures
        k >= 0 ==> last_under(keys, values, n, name) == Some(values[k]),
        k == -1 ==> last_under(keys, values, n, name) is None,
    decreases n,
{
    if k < n - 1 {
        assert(keys[n - 1] != name);
        lemma_last_under(keys, values, (n - 1) as nat, name, k);
    }
}

/// A dictionary is keys and values in turn. The keys that are texts are paired with the values in
/// order, as many as there are of both, and the last pair with a name counts. `at` lists the places
/// of those keys among the keys; `k` tells which of them it is, or is -1.
pub proof fn law_last_attribute_counts(
    dict: Seq<Arg>,
    name: Seq<char>,
    at: Seq<int>,
    k: int,
)
    requires
        forall|m: int| 0 <= m < at.len() ==> 0 <= 2 * (#[trigger] at[m]) < dict.len(),
        forall|m: int| 0 <= m < at.len() ==> dict[2 * (#[trigger] at[m])].as_str is Some,
        forall|m: int, n: int| 0 <= m < n < at.len() ==> #[trigger] at[m] < #[trigger] at[n],
        forall|i: int|
            0 <= 2 * i < dict.len() && (#[trigger] dict[2 * i]).as_str is Some ==> at.contains(i),
        -1 <= k < at.len(),
        2 * k + 1 < dict.len(),
        k >= 0 ==> dict[2 * at[k]].as_str->0@ == name,
        forall|m: int|
            k < m < at.len() && 2 * m + 1 < dict.len() ==> dict[2 * (
            #[trigger] at[m])].as_str->0@ != name,
    ensures
        k >= 0 ==> attribute(dict, name) == Some(dict[2 * k + 1]),
        k == -1 ==> attribute(dict, name) is None,
{
    let places = even_places(dict);
    let text = |a: Arg| text_of(a.as_str);
    assert forall|i: int| 0 <= i < places.len() implies 0 <= 2 * i < dict.len()
        && #[trigger] places[i] == dict[2 * i] by {}
    assert forall|m: int| 0 <= m < at.len() implies 0 <= #[trigger] at[m] < places.len() by {
        assert(0 <= 2 * at[m] < dict.len());
    }
    assert forall|m: int| 0 <= m < at.len() implies text(places[#[trigger] at[m]]) is Some by {
        assert(dict[2 * at[m]].as_str is Some);
        assert(0 <= at[m] < places.len());
    }
    assert forall|i: int| 0 <= i < places.len() && text(#[trigger] places[i]) is Some
        implies at.contains(i) by {
        assert(dict[2 * i].as_str is Some);
    }
    lemma_read_in_order(places, text, at);
    let keys = texts_among(places);
    let values = odd_places(dict);
    assert(keys == places.filter_map(text));
    assert forall|m: int| 0 <= m < at.len() implies #[trigger] keys[m] == dict[2
        * at[m]].as_str->0@ by {
        assert(Some(places.filter_map(text)[m]) == text(places[at[m]]));
        assert(0 <= at[m] < places.len());
        assert(dict[2 * at[m]].as_str is Some);
    }
    let n: nat = if keys.len() <= values.len() {
        keys.len()
    } else {
        values.len()
    };
    assert forall|i: int| k < i < n implies #[trigger] keys[i] != name by {
        assert(2 * i + 1 < dict.len());
        assert(dict[2 * at[i]].as_str->0@ != name);
    }
    lemma_last_under(keys, values, n, name, k);
    if k >= 0 {
        assert(values[k] == dict[2 * k + 1]);
    }
}

/// A pair is read from the first container among some values, whose index is `k`, if there are just
/// two values in it. What is no number counts as zero.
pub proof fn law_pair_is_in_the_first_container(s: Seq<Arg>, k: int)
    requires
        0 <= k <= s.len(),
        k < s.len() ==> s[k].items is Some,
        forall|i: int| 0 <= i < k ==> (#[trigger] s[i]).items is None,
    ensures
        k == s.len() ==> first_pair(s) is None,
        k < s.len() ==> {
            let pair = s[k].items->0@;
            &&& pair.len() != 2 ==> first_pair(s) is None
            &&& pair.len() == 2 ==> first_pair(s) == Some(
                (
                    if pair[0].as_i64 is Some {
                        pair[0].as_i64->0
                    } else {
                        0
                    },
                    if pair[1].as_i64 is Some {
                        pair[1].as_i64->0
                    } else {
                        0
                    },
                ),
            )
        },
    decreases s.len(),
{
    if k > 0 {
        let rest = s.drop_first();
        assert(s[0].items is None);
        assert forall|i: int| 0 <= i < k - 1 implies (#[trigger] rest[i]).items is None by {
            assert(rest[i] == s[i + 1]);
        }
        law_pair_is_in_the_first_container(rest, k - 1);
        assert(first_numbers(s) == first_numbers(rest));
    }
}

/// A stream is a container with a node number and a dictionary of attributes, in this order. Its size
/// has to be there, its position and source type need not be, and each has to be of its kind. A size
/// or position without a pair counts as zero, and only a position with a pair is one.
pub proof fn law_streams_are_read_from_their_parts(a: Arg, parts: Seq<Arg>, dict: Seq<Arg>)
    requires
        a.parts() == Some(parts),
        parts.len() >= 2,
        parts[0].as_u64 is Some,
        parts[1].parts() == Some(dict),
    ensures
        ({
            let size = attribute(dict, "size"@);
            let position = attribute(dict, "position"@);
            let source_type = attribute(dict, "source_type"@);
            let readable = size is Some && size->0.items is Some && (position is None
                || position->0.items is Some) && (source_type is None
                || source_type->0.as_u64 is Some);
            &&& stream_of(a) is Some <==> readable
            &&& stream_of(a) matches Some(s) ==> {
                &&& s.path == parts[0].as_u64->0
                &&& source_type is None ==> s.source_type == 0
                &&& source_type matches Some(t) ==> t.as_u64 == Some(s.source_type)
                &&& match first_pair(size->0.items->0@) {
                    Some(p) => s.size == (p.0 as usize, p.1 as usize),
                    None => s.size == (0usize, 0usize),
                }
                &&& position is None ==> s.position == (0i32, 0i32) && !is_placed_stream(a)
                &&& position matches Some(v) ==> match first_pair(v.items->0@) {
                    Some(p) => s.position == (p.0 as i32, p.1 as i32) && is_placed_stream(a),
                    None => s.position == (0i32, 0i32) && !is_placed_stream(a),
                }
            }
            &&& stream_of(a) is None ==> !is_placed_stream(a)
        }),
{
    assert forall|v: i64| #![trigger wrapped_usize(v)] wrapped_usize(v) == v as usize by {
        law_numbers_wrap_like_casts(v);
    }
    assert forall|v: i64| #![trigger wrapped_i32(v)] wrapped_i32(v) == v as i32 by {
        law_numbers_wrap_like_casts(v);
    }
}

/// Anything else is no stream.
pub proof fn law_other_values_are_no_streams(a: Arg)
    ensures
        a.items is None ==> stream_of(a) is None,
        a.items matches Some(v) ==> (v@.len() < 2 || v@[0].as_u64 is None || v@[1].items is None
            ==> stream_of(a) is None),
{
}

/// The streams of a reply are those that the values in the first part of its result `streams`
/// describe, all of them and in order. `at` lists the places of those values. A stream of them with
/// a position gives the reply one.
pub proof fn law_streams_keep_their_order(
    reply: Reply,
    outer: Vec<Arg>,
    args: Vec<Arg>,
    at: Seq<int>,
)
    requires
        reply.named("streams"@) is Some,
        reply.named("streams"@)->0.items == Some(outer),
        outer@.len() > 0,
        outer@[0].items == Some(args),
        forall|m: int| 0 <= m < at.len() ==> 0 <= #[trigger] at[m] < args@.len(),
        forall|m: int| 0 <= m < at.len() ==> stream_of(args@[#[trigger] at[m]]) is Some,
        forall|m: int, n: int| 0 <= m < n < at.len() ==> #[trigger] at[m] < #[trigger] at[n],
        forall|i: int|
            0 <= i < args@.len() && stream_of(#[trigger] args@[i]) is Some ==> at.contains(i),
    ensures
        reply_streams(reply).len() == at.len(),
        forall|m: int|
            0 <= m < at.len() ==> Some(#[trigger] reply_streams(reply)[m]) == stream_of(
                args@[at[m]],
            ),
        reply_has_position(reply) <==> exists|i: int|
            0 <= i < args@.len() && is_placed_stream(#[trigger] args@[i]),
{
    let f = |a: Arg| stream_of(a);
    assert(lists_read(args@, f, at));
    lemma_read_in_order(args@, f, at);
    assert(stream_args(reply) == args@);
    assert(reply_streams(reply) == args@.filter_map(f));
}

/// A reply without such a result has no streams and no position.
pub proof fn law_replies_without_streams(reply: Reply)
    requires
        match reply.named("streams"@) {
            Some(v) => v.items is None || v.items->0@.len() == 0 || v.items->0@[0].items is None,
            None => true,
        },
    ensures
        reply_streams(reply).len() == 0,
        !reply_has_position(reply),
{
}

/// A result is found under its name, and as a text where it is one.
pub proof fn law_results_are_found_by_name(reply: Reply, name: Seq<char>, k: int)
    requires
        0 <= k <= reply.results@.len(),
        k < reply.results@.len() ==> reply.results@[k].0@ == name,
        forall|i: int| 0 <= i < k ==> (#[trigger] reply.results@[i]).0@ != name,
    ensures
        k < reply.results@.len() ==> reply.named(name) == Some(reply.results@[k].1),
        k == reply.results@.len() ==> reply.named(name) is None,
        k == reply.results@.len() ==> reply.text_named(name) is None,
        k < reply.results@.len() && reply.results@[k].1.as_str is None ==> reply.text_named(
            name,
        ) is None,
        k < reply.results@.len() ==> (reply.results@[k].1.as_str matches Some(t)
            ==> reply.text_named(name) == Some(t@)),
{
    law_first_result_counts(reply.results@, name, k);
}

} // verus!
