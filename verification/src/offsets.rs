//! Keeping the positions of shared displays for the next session.

use vstd::prelude::*;

use crate::capturable::{Display, PwStreamInfo};
use crate::display::{DisplayInfo, Displays};
use crate::positions::{all_put, all_streams_put, place_at};
use crate::text::{decimal, digit, is_digit, push_signed_decimal, same_text, signed_decimal};

verus! {

/// The stored positions, with what has to be unchanged for them to count: the displays, because a
/// restored choice of the user can show another screen once a monitor is added, and the token by
/// which that choice is restored.
#[derive(Debug)]
pub struct PipewireDisplayOffsetCache {
    /// All displays as one text, for easy comparison.
    pub display_key: String,
    pub restore_token: String,
    pub offsets: Vec<(i32, i32)>,
}

/// Stored positions as plain values.
#[verifier::ext_equal]
pub struct OffsetsView {
    pub display_key: Seq<char>,
    pub restore_token: Seq<char>,
    pub offsets: Seq<(i32, i32)>,
}

impl View for PipewireDisplayOffsetCache {
    type V = OffsetsView;

    open spec fn view(&self) -> OffsetsView {
        OffsetsView {
            display_key: self.display_key@,
            restore_token: self.restore_token@,
            offsets: self.offsets@,
        }
    }
}

/// A number with the sign that separates it from what stands before it.
pub open spec fn dashed(i: int) -> Seq<char> {
    seq!['-'] + signed_decimal(i)
}

/// The text `name-x-y-width-height` of a display.
pub open spec fn display_text(d: DisplayInfo) -> Seq<char> {
    d.name@ + dashed(d.x as int) + dashed(d.y as int) + dashed(d.width as int) + dashed(
        d.height as int,
    )
}

/// The texts of all displays, separated by `;`.
pub open spec fn displays_key(displays: Seq<DisplayInfo>) -> Seq<char>
    decreases displays.len(),
{
    if displays.len() == 0 {
        Seq::empty()
    } else if displays.len() == 1 {
        display_text(displays[0])
    } else {
        displays_key(displays.drop_last()).push(';') + display_text(displays.last())
    }
}

/// What stands before the text of the last display.
spec fn key_before_last(displays: Seq<DisplayInfo>) -> Seq<char> {
    if displays.len() == 1 {
        Seq::empty()
    } else {
        displays_key(displays.drop_last()).push(';')
    }
}

impl PipewireDisplayOffsetCache {
    /// All displays as one text.
    pub fn displays_to_key(displays: &Displays) -> (r: String)
        ensures
            r@ == displays_key(displays.displays@),
    {
        let mut r = String::new();
        let ghost all = displays.displays@;
        let mut i: usize = 0;
        while i < displays.displays.len()
            invariant
                all == displays.displays@,
                i <= all.len(),
                r@ == displays_key(all.take(i as int)),
            decreases displays.displays.len() - i,
        {
            let d = &displays.displays[i];
            let ghost next = all.take(i + 1);
            assert(next.drop_last() =~= all.take(i as int));
            assert(next.last() == *d);
            if i > 0 {
                r.push(';');
            }
            assert(r@ =~= key_before_last(next));
            let ghost start = r@;
            r.append(d.name.as_str());
            r.push('-');
            push_signed_decimal(&mut r, d.x);
            r.push('-');
            push_signed_decimal(&mut r, d.y);
            r.push('-');
            push_signed_decimal(&mut r, d.width);
            r.push('-');
            push_signed_decimal(&mut r, d.height);
            assert(r@ =~= start + display_text(*d));
            assert(r@ =~= displays_key(next));
            i += 1;
        }
        assert(all.take(all.len() as int) == all);
        r
    }
}

impl OffsetsView {
    /// Whether stored positions count: for this many shared displays, with these displays and this
    /// token.
    pub open spec fn applies(
        self,
        displays: Seq<DisplayInfo>,
        restore_token: Seq<char>,
        shared: nat,
    ) -> bool {
        &&& self.offsets.len() == shared
        &&& self.display_key == displays_key(displays)
        &&& self.restore_token == restore_token
    }

    /// The places that stored positions give to shared displays.
    pub open spec fn places(self, shared: Seq<Display>) -> Seq<Option<(i32, i32)>> {
        Seq::new(
            shared.len(),
            |i: int|
                if shared[i] is WAYLAND {
                    Some(self.offsets[i])
                } else {
                    None
                },
        )
    }
}

/// Puts the shared displays and their streams where stored positions tell, and tells whether those
/// count. `cache` is `None` where what is stored could not be read.
pub fn try_fill_positions_from_cache(
    cache: Option<&PipewireDisplayOffsetCache>,
    displays: &Displays,
    restore_token: &str,
    shared_displays: &mut Vec<Display>,
    streams: &mut Vec<PwStreamInfo>,
) -> (r: bool)
    ensures
        r == (cache matches Some(c) && c@.applies(
            displays.displays@,
            restore_token@,
            old(shared_displays)@.len(),
        )),
        r ==> {
            let places = cache->0@.places(old(shared_displays)@);
            &&& final(shared_displays)@ == all_put(old(shared_displays)@, places)
            &&& final(streams)@ == all_streams_put(old(streams)@, places)
        },
        !r ==> {
            &&& final(shared_displays)@ == old(shared_displays)@
            &&& final(streams)@ == old(streams)@
        },
{
    let cache = match cache {
        Some(c) => c,
        None => {
            return false;
        },
    };
    if cache.offsets.len() != shared_displays.len() {
        return false;
    }
    let display_key = PipewireDisplayOffsetCache::displays_to_key(displays);
    if !same_text(cache.display_key.as_str(), display_key.as_str()) {
        return false;
    }
    if !same_text(cache.restore_token.as_str(), restore_token) {
        return false;
    }
    let ghost shared = shared_displays@;
    let ghost before = streams@;
    let ghost places = cache@.places(shared);
    let mut i: usize = 0;
    while i < shared_displays.len()
        invariant
            places == cache@.places(shared),
            cache.offsets@.len() == shared.len(),
            shared_displays@.len() == shared.len(),
            streams@.len() == before.len(),
            i <= shared.len(),
            forall|k: int|
                0 <= k < shared.len() ==> #[trigger] shared_displays@[k] == if k < i {
                    crate::positions::put(shared[k], places[k])
                } else {
                    shared[k]
                },
            forall|k: int|
                0 <= k < before.len() ==> #[trigger] streams@[k] == if k < i {
                    crate::positions::put_stream(before[k], places[k])
                } else {
                    before[k]
                },
        decreases shared_displays.len() - i,
    {
        if shared_displays[i].get_stream_position().is_some() {
            place_at(shared_displays, streams, i, cache.offsets[i]);
        }
        i += 1;
    }
    assert(shared_displays@ =~= all_put(shared, places));
    assert(streams@ =~= all_streams_put(before, places));
    true
}

/// The positions of the captured streams among shared displays.
pub open spec fn stream_positions(shared: Seq<Display>) -> Seq<(i32, i32)> {
    shared.filter_map(|d: Display| d.stream_position())
}

/// What is stored of the positions: nothing without a token.
pub open spec fn stored_offsets(
    displays: Seq<DisplayInfo>,
    shared: Seq<Display>,
    restore_token: Seq<char>,
) -> Option<OffsetsView> {
    if restore_token.len() == 0 {
        None
    } else {
        Some(
            OffsetsView {
                display_key: displays_key(displays),
                restore_token,
                offsets: stream_positions(shared),
            },
        )
    }
}

/// What to store of the positions for the next session. Without a restore token the next session
/// asks the user again, so that nothing is stored.
pub fn save_positions_to_cache(
    displays: &Displays,
    shared_displays: &Vec<Display>,
    restore_token: &str,
) -> (r: Option<PipewireDisplayOffsetCache>)
    ensures
        match r {
            Some(c) => stored_offsets(displays.displays@, shared_displays@, restore_token@) == Some(
                c@,
            ),
            None => stored_offsets(displays.displays@, shared_displays@, restore_token@) is None,
        },
{
    if restore_token.is_empty() {
        return None;
    }
    let mut offsets: Vec<(i32, i32)> = Vec::new();
    let ghost position = |d: Display| d.stream_position();
    let mut i: usize = 0;
    while i < shared_displays.len()
        invariant
            position == (|d: Display| d.stream_position()),
            i <= shared_displays@.len(),
            offsets@ == shared_displays@.take(i as int).filter_map(position),
        decreases shared_displays.len() - i,
    {
        assert(shared_displays@.take(i + 1).drop_last() =~= shared_displays@.take(i as int));
        assert(shared_displays@.take(i + 1).last() == shared_displays@[i as int]);
        match shared_displays[i].get_stream_position() {
            Some(p) => {
                offsets.push(p);
            },
            None => {},
        }
        i += 1;
    }
    assert(shared_displays@.take(shared_displays@.len() as int) == shared_displays@);
    let cache = PipewireDisplayOffsetCache {
        display_key: PipewireDisplayOffsetCache::displays_to_key(displays),
        restore_token: restore_token.to_owned(),
        offsets,
    };
    Some(cache)
}

/// Among captured streams only, every shared display has its position in the list.
proof fn lemma_stream_positions(shared: Seq<Display>)
    requires
        forall|i: int| 0 <= i < shared.len() ==> #[trigger] shared[i] is WAYLAND,
    ensures
        stream_positions(shared).len() == shared.len(),
        forall|i: int|
            0 <= i < shared.len() ==> Some(#[trigger] stream_positions(shared)[i])
                == shared[i].stream_position(),
    decreases shared.len(),
{
    if shared.len() > 0 {
        let short = shared.drop_last();
        lemma_stream_positions(short);
        assert(shared.last() is WAYLAND);
        assert forall|i: int| 0 <= i < shared.len() implies Some(
            #[trigger] stream_positions(shared)[i],
        ) == shared[i].stream_position() by {
            if i < short.len() {
                assert(stream_positions(short)[i] == stream_positions(shared)[i]);
                assert(short[i] == shared[i]);
            }
        }
    }
}

/// What was stored is restored: with the same displays and the same token, stored positions count
/// for as many captured streams, and put each of them where it was when they were stored.
pub proof fn law_stored_positions_come_back(
    displays: Seq<DisplayInfo>,
    restore_token: Seq<char>,
    stored: Seq<Display>,
    later: Seq<Display>,
)
    requires
        restore_token.len() > 0,
        stored.len() == later.len(),
        forall|i: int| 0 <= i < stored.len() ==> #[trigger] stored[i] is WAYLAND,
        forall|i: int| 0 <= i < later.len() ==> #[trigger] later[i] is WAYLAND,
    ensures
        ({
            let cache = stored_offsets(displays, stored, restore_token);
            &&& cache matches Some(c) && c.applies(displays, restore_token, later.len()) && (forall|
                i: int,
            |
                0 <= i < later.len() ==> (#[trigger] all_put(
                    later,
                    c.places(later),
                )[i]).stream_position() == stored[i].stream_position())
        }),
{
    lemma_stream_positions(stored);
    let c = stored_offsets(displays, stored, restore_token)->0;
    assert forall|i: int| 0 <= i < later.len() implies (#[trigger] all_put(
        later,
        c.places(later),
    )[i]).stream_position() == stored[i].stream_position() by {
        assert(later[i] is WAYLAND);
        assert(stored[i] is WAYLAND);
        assert(Some(stream_positions(stored)[i]) == stored[i].stream_position());
    }
}

/// A shared display that is not a captured stream keeps stored positions from ever counting for
/// as many shared displays.
pub proof fn law_positions_need_captured_streams(
    displays: Seq<DisplayInfo>,
    restore_token: Seq<char>,
    shared: Seq<Display>,
    i: int,
)
    requires
        restore_token.len() > 0,
        0 <= i < shared.len(),
        shared[i] is X11,
    ensures
        !stored_offsets(displays, shared, restore_token)->0.applies(
            displays,
            restore_token,
            shared.len(),
        ),
{
    lemma_fewer_positions(shared, i);
}

/// A display without a stream is missing from the list of positions.
proof fn lemma_fewer_positions(shared: Seq<Display>, i: int)
    requires
        0 <= i < shared.len(),
        shared[i] is X11,
    ensures
        stream_positions(shared).len() < shared.len(),
    decreases shared.len(),
{
    let short = shared.drop_last();
    lemma_positions_bounded(short);
    if i < short.len() {
        assert(short[i] == shared[i]);
        lemma_fewer_positions(short, i);
    }
}

/// There are no more positions than displays.
proof fn lemma_positions_bounded(shared: Seq<Display>)
    ensures
        stream_positions(shared).len() <= shared.len(),
    decreases shared.len(),
{
    if shared.len() > 0 {
        lemma_positions_bounded(shared.drop_last());
    }
}

/// A name that can be told apart inside a key.
pub open spec fn is_plain_name(name: Seq<char>) -> bool {
    !name.contains(';') && !ends_dashed(name)
}

/// Whether a text ends with a dash.
pub open spec fn ends_dashed(s: Seq<char>) -> bool {
    s.len() > 0 && s.last() == '-'
}

/// Whether two displays agree in name, place and size.
pub open spec fn same_outline(a: DisplayInfo, b: DisplayInfo) -> bool {
    a.name@ == b.name@ && a.x == b.x && a.y == b.y && a.width == b.width && a.height == b.height
}

/// A number in decimal is not empty and consists of digits.
proof fn lemma_decimal_digits(n: nat)
    ensures
        decimal(n).len() > 0,
        forall|i: int| 0 <= i < decimal(n).len() ==> is_digit(#[trigger] decimal(n)[i]),
    decreases n,
{
    if n >= 10 {
        lemma_decimal_digits(n / 10);
    }
}

/// Different numbers differ in decimal.
proof fn lemma_decimal_injective(a: nat, b: nat)
    requires
        decimal(a) == decimal(b),
    ensures
        a == b,
    decreases a,
{
    lemma_decimal_digits(a / 10);
    lemma_decimal_digits(b / 10);
    assert(decimal(a).last() == digit(a % 10));
    assert(decimal(b).last() == digit(b % 10));
    assert(a % 10 == b % 10);
    if a >= 10 && b >= 10 {
        assert(decimal(a).drop_last() =~= decimal(a / 10));
        assert(decimal(b).drop_last() =~= decimal(b / 10));
        lemma_decimal_injective(a / 10, b / 10);
    } else if a >= 10 {
        assert(decimal(a).len() > 1);
        assert(decimal(b).len() == 1);
    } else if b >= 10 {
        assert(decimal(b).len() > 1);
        assert(decimal(a).len() == 1);
    }
}

/// Two texts that end in digits after a dash agree before and after it.
proof fn lemma_digit_tail(p: Seq<char>, a: Seq<char>, q: Seq<char>, b: Seq<char>)
    requires
        p + a == q + b,
        ends_dashed(p),
        ends_dashed(q),
        forall|i: int| 0 <= i < a.len() ==> is_digit(#[trigger] a[i]),
        forall|i: int| 0 <= i < b.len() ==> is_digit(#[trigger] b[i]),
    ensures
        p == q,
        a == b,
{
    let t = p + a;
    assert(p.len() + a.len() == t.len() == q.len() + b.len());
    if a.len() < b.len() {
        assert(t[p.len() - 1] == p.last());
        assert((q + b)[p.len() - 1] == b[p.len() - 1 - q.len()]);
    }
    if b.len() < a.len() {
        assert((q + b)[q.len() - 1] == q.last());
        assert(t[q.len() - 1] == a[q.len() - 1 - p.len()]);
    }
    assert(p =~= t.take(p.len() as int));
    assert(q =~= (q + b).take(q.len() as int));
    assert(a =~= t.skip(p.len() as int));
    assert(b =~= (q + b).skip(q.len() as int));
}

/// The last number of a text can be told, if what stands before its separator ends without a dash.
proof fn lemma_last_number(p: Seq<char>, i: int, q: Seq<char>, j: int)
    requires
        p + dashed(i) == q + dashed(j),
        !ends_dashed(p),
        !ends_dashed(q),
    ensures
        p == q,
        i == j,
{
    let di = decimal(
        if i < 0 {
            (-i) as nat
        } else {
            i as nat
        },
    );
    let dj = decimal(
        if j < 0 {
            (-j) as nat
        } else {
            j as nat
        },
    );
    let pi = if i < 0 {
        p.push('-').push('-')
    } else {
        p.push('-')
    };
    let qj = if j < 0 {
        q.push('-').push('-')
    } else {
        q.push('-')
    };
    assert(p + dashed(i) =~= pi + di);
    assert(q + dashed(j) =~= qj + dj);
    lemma_decimal_digits(
        if i < 0 {
            (-i) as nat
        } else {
            i as nat
        },
    );
    lemma_decimal_digits(
        if j < 0 {
            (-j) as nat
        } else {
            j as nat
        },
    );
    lemma_digit_tail(pi, di, qj, dj);
    lemma_decimal_injective(
        if i < 0 {
            (-i) as nat
        } else {
            i as nat
        },
        if j < 0 {
            (-j) as nat
        } else {
            j as nat
        },
    );
    if i < 0 && j >= 0 {
        assert(q =~= p.push('-')) by {
            assert(qj.drop_last() =~= q);
            assert(pi.drop_last() =~= p.push('-'));
        }
    } else if j < 0 && i >= 0 {
        assert(p =~= q.push('-')) by {
            assert(pi.drop_last() =~= p);
            assert(qj.drop_last() =~= q.push('-'));
        }
    } else if i < 0 {
        assert(pi.drop_last().drop_last() =~= p);
        assert(qj.drop_last().drop_last() =~= q);
    } else {
        assert(pi.drop_last() =~= p);
        assert(qj.drop_last() =~= q);
    }
}

/// A text that ends with a number does not end with a dash.
proof fn lemma_number_end(p: Seq<char>, i: int)
    ensures
        !ends_dashed(p + dashed(i)),
        (p + dashed(i)).len() > 0,
{
    let n = if i < 0 {
        (-i) as nat
    } else {
        i as nat
    };
    lemma_decimal_digits(n);
    assert((p + dashed(i)).last() == decimal(n).last());
}

/// What stands before the last name and the last name itself can be told.
proof fn lemma_last_name(p: Seq<char>, a: Seq<char>, q: Seq<char>, b: Seq<char>)
    requires
        p + a == q + b,
        p.len() > 0 ==> p.last() == ';',
        q.len() > 0 ==> q.last() == ';',
        !a.contains(';'),
        !b.contains(';'),
    ensures
        p == q,
        a == b,
{
    let t = p + a;
    assert(p.len() + a.len() == t.len() == q.len() + b.len());
    if a.len() < b.len() {
        assert(t[p.len() - 1] == p.last());
        assert((q + b)[p.len() - 1] == b[p.len() - 1 - q.len()]);
    }
    if b.len() < a.len() {
        assert((q + b)[q.len() - 1] == q.last());
        assert(t[q.len() - 1] == a[q.len() - 1 - p.len()]);
    }
    assert(p =~= t.take(p.len() as int));
    assert(q =~= (q + b).take(q.len() as int));
    assert(a =~= t.skip(p.len() as int));
    assert(b =~= (q + b).skip(q.len() as int));
}

/// Two keys that agree were made of lists whose last displays agree, after the same start.
proof fn lemma_key_last(a: Seq<DisplayInfo>, b: Seq<DisplayInfo>)
    requires
        displays_key(a) == displays_key(b),
        a.len() > 0,
        b.len() > 0,
        is_plain_name(a.last().name@),
        is_plain_name(b.last().name@),
    ensures
        same_outline(a.last(), b.last()),
        key_before_last(a) == key_before_last(b),
{
    let (da, db) = (a.last(), b.last());
    let (a0, b0) = (key_before_last(a) + da.name@, key_before_last(b) + db.name@);
    let (a1, b1) = (a0 + dashed(da.x as int), b0 + dashed(db.x as int));
    let (a2, b2) = (a1 + dashed(da.y as int), b1 + dashed(db.y as int));
    let (a3, b3) = (a2 + dashed(da.width as int), b2 + dashed(db.width as int));
    assert(displays_key(a) =~= a3 + dashed(da.height as int));
    assert(displays_key(b) =~= b3 + dashed(db.height as int));
    lemma_number_end(a2, da.width as int);
    lemma_number_end(b2, db.width as int);
    lemma_last_number(a3, da.height as int, b3, db.height as int);
    lemma_number_end(a1, da.y as int);
    lemma_number_end(b1, db.y as int);
    lemma_last_number(a2, da.width as int, b2, db.width as int);
    lemma_number_end(a0, da.x as int);
    lemma_number_end(b0, db.x as int);
    lemma_last_number(a1, da.y as int, b1, db.y as int);
    assert(!ends_dashed(a0)) by {
        if da.name@.len() > 0 {
            assert(a0.last() == da.name@.last());
        } else {
            assert(a0 =~= key_before_last(a));
        }
    }
    assert(!ends_dashed(b0)) by {
        if db.name@.len() > 0 {
            assert(b0.last() == db.name@.last());
        } else {
            assert(b0 =~= key_before_last(b));
        }
    }
    lemma_last_number(a0, da.x as int, b0, db.x as int);
    lemma_last_name(key_before_last(a), da.name@, key_before_last(b), db.name@);
}

/// The key tells the displays apart: lists with the same key agree display by display in name,
/// place and size. This leaves out names that contain a `;` or end with a `-`, which can make one
/// list read as another.
pub proof fn law_key_tells_displays_apart(a: Seq<DisplayInfo>, b: Seq<DisplayInfo>)
    requires
        displays_key(a) == displays_key(b),
        forall|i: int| 0 <= i < a.len() ==> is_plain_name((#[trigger] a[i]).name@),
        forall|i: int| 0 <= i < b.len() ==> is_plain_name((#[trigger] b[i]).name@),
    ensures
        a.len() == b.len(),
        forall|i: int| 0 <= i < a.len() ==> same_outline(#[trigger] a[i], b[i]),
    decreases a.len(),
{
    if a.len() == 0 || b.len() == 0 {
        lemma_key_empty(a);
        lemma_key_empty(b);
    } else {
        lemma_key_last(a, b);
        let (sa, sb) = (a.drop_last(), b.drop_last());
        if a.len() > 1 && b.len() > 1 {
            assert(key_before_last(a).drop_last() =~= displays_key(sa));
            assert(key_before_last(b).drop_last() =~= displays_key(sb));
            assert forall|i: int| 0 <= i < sa.len() implies is_plain_name(
                (#[trigger] sa[i]).name@,
            ) by {
                assert(sa[i] == a[i]);
            }
            assert forall|i: int| 0 <= i < sb.len() implies is_plain_name(
                (#[trigger] sb[i]).name@,
            ) by {
                assert(sb[i] == b[i]);
            }
            law_key_tells_displays_apart(sa, sb);
            assert forall|i: int| 0 <= i < a.len() implies same_outline(#[trigger] a[i], b[i]) by {
                if i < sa.len() {
                    assert(same_outline(sa[i], sb[i]));
                }
            }
        } else {
            assert(key_before_last(a).len() == key_before_last(b).len());
        }
    }
}

/// Only the empty list has an empty key.
proof fn lemma_key_empty(a: Seq<DisplayInfo>)
    ensures
        displays_key(a).len() == 0 <==> a.len() == 0,
{
    if a.len() > 0 {
        let d = a.last();
        lemma_number_end(
            key_before_last(a) + d.name@ + dashed(d.x as int) + dashed(d.y as int) + dashed(
                d.width as int,
            ),
            d.height as int,
        );
        assert(displays_key(a) =~= key_before_last(a) + d.name@ + dashed(d.x as int) + dashed(
            d.y as int,
        ) + dashed(d.width as int) + dashed(d.height as int));
    }
}

/// The key lists the displays in order, separated by `;`, each as its name, its place and its size,
/// separated by `-`.
pub proof fn law_key_lists_the_displays(displays: Seq<DisplayInfo>, d: DisplayInfo)
    ensures
        displays_key(Seq::<DisplayInfo>::empty()) == Seq::<char>::empty(),
        ({
            let text = d.name@ + "-"@ + signed_decimal(d.x as int) + "-"@ + signed_decimal(
                d.y as int,
            ) + "-"@ + signed_decimal(d.width as int) + "-"@ + signed_decimal(d.height as int);
            &&& displays.len() == 0 ==> displays_key(displays.push(d)) == text
            &&& displays.len() > 0 ==> displays_key(displays.push(d)) == displays_key(displays)
                + ";"@ + text
        }),
{
    reveal_strlit("-");
    reveal_strlit(";");
    assert("-"@ =~= seq!['-']);
    assert(";"@ =~= seq![';']);
    let text = d.name@ + "-"@ + signed_decimal(d.x as int) + "-"@ + signed_decimal(d.y as int)
        + "-"@ + signed_decimal(d.width as int) + "-"@ + signed_decimal(d.height as int);
    assert(display_text(d) =~= text);
    assert(displays.push(d).drop_last() =~= displays);
    assert(displays.push(d).last() == d);
    if displays.len() > 0 {
        assert(displays_key(displays).push(';') + text =~= displays_key(displays) + ";"@ + text);
    }
}

/// If a display is renamed, moved or resized, stored positions no longer count. This leaves out names
/// that contain a `;` or end with a `-`.
pub proof fn law_changed_displays_discard_positions(
    cache: OffsetsView,
    before: Seq<DisplayInfo>,
    after: Seq<DisplayInfo>,
    restore_token: Seq<char>,
    shared: nat,
    i: int,
)
    requires
        cache.applies(before, restore_token, shared),
        forall|k: int|
            0 <= k < before.len() ==> !(#[trigger] before[k]).name@.contains(';') && !(
            before[k].name@.len() > 0 && before[k].name@.last() == '-'),
        forall|k: int|
            0 <= k < after.len() ==> !(#[trigger] after[k]).name@.contains(';') && !(
            after[k].name@.len() > 0 && after[k].name@.last() == '-'),
        before.len() != after.len() || (0 <= i < before.len() && (before[i].name@ != after[i].name@
            || before[i].x != after[i].x || before[i].y != after[i].y || before[i].width
            != after[i].width || before[i].height != after[i].height)),
    ensures
        !cache.applies(after, restore_token, shared),
{
    if displays_key(before) == displays_key(after) {
        assert forall|k: int| 0 <= k < before.len() implies is_plain_name(
            (#[trigger] before[k]).name@,
        ) by {}
        assert forall|k: int| 0 <= k < after.len() implies is_plain_name(
            (#[trigger] after[k]).name@,
        ) by {}
        law_key_tells_displays_apart(before, after);
        if before.len() == after.len() {
            assert(same_outline(before[i], after[i]));
        }
    }
}

/// Stored positions count for the token and the number of shared displays that they were stored with
/// only.
pub proof fn law_stored_positions_are_bound(
    cache: OffsetsView,
    displays: Seq<DisplayInfo>,
    restore_token: Seq<char>,
    other: Seq<char>,
    shared: nat,
    count: nat,
)
    requires
        cache.applies(displays, restore_token, shared),
    ensures
        cache.offsets.len() == shared,
        cache.restore_token == restore_token,
        cache.display_key == displays_key(displays),
        other != restore_token ==> !cache.applies(displays, other, shared),
        count != shared ==> !cache.applies(displays, restore_token, count),
{
}

/// Positions are stored if and only if there is a token, with that token and the displays.
pub proof fn law_positions_are_stored_with_a_token(
    displays: Seq<DisplayInfo>,
    shared: Seq<Display>,
    restore_token: Seq<char>,
)
    ensures
        stored_offsets(displays, shared, restore_token) is Some <==> restore_token.len() > 0,
        stored_offsets(displays, shared, restore_token) matches Some(c) ==> c.restore_token
            == restore_token && c.display_key == displays_key(displays),
{
}

/// The positions are stored in order, those of captured streams only.
pub proof fn law_positions_are_stored_in_order(
    displays: Seq<DisplayInfo>,
    shared: Seq<Display>,
    restore_token: Seq<char>,
    d: Display,
)
    requires
        restore_token.len() > 0,
    ensures
        ({
            let before = stored_offsets(displays, shared, restore_token)->0.offsets;
            let after = stored_offsets(displays, shared.push(d), restore_token)->0.offsets;
            &&& d is X11 ==> after == before
            &&& d matches Display::WAYLAND(c) ==> after == before.push(c.position)
        }),
        stored_offsets(displays, Seq::<Display>::empty(), restore_token)->0.offsets.len() == 0,
{
    assert(shared.push(d).drop_last() =~= shared);
}

/// Restored positions put each captured stream, and the stream with its index, at the position with
/// that index, and leave what is no captured stream.
pub proof fn law_restored_positions_go_by_index(
    cache: OffsetsView,
    shared: Seq<Display>,
    streams: Seq<PwStreamInfo>,
    i: int,
)
    requires
        cache.offsets.len() == shared.len(),
        0 <= i < shared.len(),
    ensures
        cache.places(shared).len() == shared.len(),
        shared[i] is WAYLAND ==> cache.places(shared)[i] == Some(cache.offsets[i]),
        shared[i] is X11 ==> cache.places(shared)[i] is None,
        shared[i] is WAYLAND ==> all_put(shared, cache.places(shared))[i].stream_position() == Some(
            cache.offsets[i],
        ),
        shared[i] is WAYLAND && i < streams.len() ==> all_streams_put(
            streams,
            cache.places(shared),
        )[i].position == cache.offsets[i],
{
}

/// Stored positions are what they hold.
pub proof fn law_stored_positions_are_what_they_hold(cache: PipewireDisplayOffsetCache)
    ensures
        cache@.display_key == cache.display_key@,
        cache@.restore_token == cache.restore_token@,
        cache@.offsets == cache.offsets@,
{
}

} // verus!
