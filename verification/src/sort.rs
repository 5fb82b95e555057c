//! Putting the streams into the order of the displays.

use vstd::prelude::*;

use crate::capturable::{Display, PwStreamInfo};
use crate::display::{DisplayInfo, Displays};
use crate::positions::in_step;

verus! {

/// The corners of displays.
pub open spec fn corners(displays: Seq<DisplayInfo>) -> Seq<(i32, i32)> {
    displays.map_values(|d: DisplayInfo| d.corner())
}

/// The corners in the order of the streams: the main display first, then the others as they are.
pub open spec fn display_order(displays: Seq<DisplayInfo>, primary: int) -> Seq<(i32, i32)> {
    if 0 <= primary < displays.len() {
        seq![displays[primary].corner()] + corners(displays.remove(primary))
    } else {
        corners(displays)
    }
}

/// The index of the first stream at a place, or the number of streams where there is none.
pub open spec fn stream_index(streams: Seq<PwStreamInfo>, pos: (i32, i32)) -> int
    decreases streams.len(),
{
    if streams.len() == 0 || streams[0].position == pos {
        0
    } else {
        1 + stream_index(streams.drop_first(), pos)
    }
}

/// Without the element at `i`, if there is one.
pub open spec fn without<T>(s: Seq<T>, i: int) -> Seq<T> {
    if 0 <= i < s.len() {
        s.remove(i)
    } else {
        s
    }
}

/// Just the element at `i`, if there is one.
pub open spec fn just<T>(s: Seq<T>, i: int) -> Seq<T> {
    if 0 <= i < s.len() {
        seq![s[i]]
    } else {
        Seq::empty()
    }
}

/// For each place in turn, the first stream there that was not taken before.
pub open spec fn sorted_streams(order: Seq<(i32, i32)>, streams: Seq<PwStreamInfo>) -> Seq<
    PwStreamInfo,
>
    decreases order.len(),
{
    if order.len() == 0 {
        Seq::empty()
    } else {
        let i = stream_index(streams, order[0]);
        just(streams, i) + sorted_streams(order.drop_first(), without(streams, i))
    }
}

/// The shared displays that go along with the streams.
pub open spec fn sorted_displays(
    order: Seq<(i32, i32)>,
    streams: Seq<PwStreamInfo>,
    shared: Seq<Display>,
) -> Seq<Display>
    decreases order.len(),
{
    if order.len() == 0 {
        Seq::empty()
    } else {
        let i = stream_index(streams, order[0]);
        if i < streams.len() {
            just(shared, i) + sorted_displays(
                order.drop_first(),
                streams.remove(i),
                without(shared, i),
            )
        } else {
            sorted_displays(order.drop_first(), streams, shared)
        }
    }
}

/// The index of a stream stays within bounds, and there is a stream at the place.
proof fn lemma_stream_index(streams: Seq<PwStreamInfo>, pos: (i32, i32))
    ensures
        0 <= stream_index(streams, pos) <= streams.len(),
        stream_index(streams, pos) < streams.len() ==> streams[stream_index(
            streams,
            pos,
        )].position == pos,
        forall|k: int|
            0 <= k < stream_index(streams, pos) ==> (#[trigger] streams[k]).position != pos,
    decreases streams.len(),
{
    if streams.len() > 0 && streams[0].position != pos {
        lemma_stream_index(streams.drop_first(), pos);
        let i = stream_index(streams.drop_first(), pos);
        assert forall|k: int| 0 <= k < i + 1 implies (#[trigger] streams[k]).position != pos by {
            if k > 0 {
                assert(streams.drop_first()[k - 1] == streams[k]);
            }
        }
    }
}

/// Finds the first stream at a place.
fn find_stream(streams: &Vec<PwStreamInfo>, pos: (i32, i32)) -> (r: usize)
    ensures
        r == stream_index(streams@, pos),
        r <= streams@.len(),
{
    let mut i: usize = 0;
    assert(streams@.skip(0) == streams@);
    while i < streams.len()
        invariant
            i <= streams@.len(),
            stream_index(streams@, pos) == i + stream_index(streams@.skip(i as int), pos),
        decreases streams.len() - i,
    {
        assert(streams@.skip(i as int).drop_first() == streams@.skip(i + 1));
        if streams[i].position.0 == pos.0 && streams[i].position.1 == pos.1 {
            return i;
        }
        i += 1;
    }
    i
}

/// Lists the corners in the order of the streams.
fn list_order(displays: &Displays) -> (r: Vec<(i32, i32)>)
    ensures
        r@ == display_order(displays.displays@, displays.primary as int),
{
    let mut r: Vec<(i32, i32)> = Vec::new();
    let ghost all = displays.displays@;
    let ghost p = displays.primary as int;
    if displays.primary < displays.displays.len() {
        let d = &displays.displays[displays.primary];
        r.push((d.x, d.y));
    }
    let mut i: usize = 0;
    while i < displays.displays.len()
        invariant
            all == displays.displays@,
            p == displays.primary,
            i <= all.len(),
            p >= all.len() ==> r@ =~= corners(all.take(i as int)),
            p < all.len() && i <= p ==> r@ =~= seq![all[p].corner()] + corners(all.take(i as int)),
            p < i <= all.len() ==> r@ =~= seq![all[p].corner()] + corners(
                all.take(p) + all.subrange(p + 1, i as int),
            ),
        decreases displays.displays.len() - i,
    {
        let d = &displays.displays[i];
        if i != displays.primary {
            r.push((d.x, d.y));
        }
        i += 1;
    }
    proof {
        assert(all.take(all.len() as int) == all);
        if p < all.len() {
            assert(all.take(p) =~= all.subrange(0, p));
            assert(all.remove(p) =~= all.take(p) + all.subrange(p + 1, all.len() as int));
        }
    }
    r
}

/// Sorts the streams and the shared displays with them: the main display first, then the others
/// in the order of the displays. What stands at no display is dropped. Without streams nothing is
/// changed.
pub fn sort_streams(
    displays: &Displays,
    shared_displays: &mut Vec<Display>,
    streams: &mut Vec<PwStreamInfo>,
)
    ensures
        old(streams)@.len() == 0 ==> {
            &&& final(shared_displays)@ == old(shared_displays)@
            &&& final(streams)@ == old(streams)@
        },
        old(streams)@.len() > 0 ==> {
            let order = display_order(displays.displays@, displays.primary as int);
            &&& final(streams)@ == sorted_streams(order, old(streams)@)
            &&& final(shared_displays)@ == sorted_displays(
                order,
                old(streams)@,
                old(shared_displays)@,
            )
        },
{
    if streams.is_empty() {
        return;
    }
    let order = list_order(displays);
    let ghost wanted_streams = sorted_streams(order@, streams@);
    let ghost wanted_displays = sorted_displays(order@, streams@, shared_displays@);
    let mut sorted: Vec<PwStreamInfo> = Vec::new();
    let mut sorted_shared: Vec<Display> = Vec::new();
    let mut k: usize = 0;
    assert(order@.skip(0) == order@);
    while k < order.len()
        invariant
            k <= order@.len(),
            wanted_streams =~= sorted@ + sorted_streams(order@.skip(k as int), streams@),
            wanted_displays =~= sorted_shared@ + sorted_displays(
                order@.skip(k as int),
                streams@,
                shared_displays@,
            ),
        decreases order.len() - k,
    {
        assert(order@.skip(k as int).drop_first() == order@.skip(k + 1));
        let i: usize = find_stream(streams, order[k]);
        if i < streams.len() {
            let s = streams.remove(i);
            sorted.push(s);
            if i < shared_displays.len() {
                let d = shared_displays.remove(i);
                sorted_shared.push(d);
            }
        }
        k += 1;
    }
    *streams = sorted;
    *shared_displays = sorted_shared;
}

/// `s` can be made from `of` by leaving elements out.
pub open spec fn is_subsequence<T>(s: Seq<T>, of: Seq<T>) -> bool
    decreases of.len(),
{
    if s.len() == 0 {
        true
    } else if of.len() == 0 {
        false
    } else {
        ||| s[0] == of[0] && is_subsequence(s.drop_first(), of.drop_first())
        ||| is_subsequence(s, of.drop_first())
    }
}

/// The positions of streams.
pub open spec fn positions_of(streams: Seq<PwStreamInfo>) -> Seq<(i32, i32)> {
    streams.map_values(|s: PwStreamInfo| s.position)
}

/// The sorted streams stand in the order of the displays.
pub proof fn law_sorted_streams_follow_the_displays(
    order: Seq<(i32, i32)>,
    streams: Seq<PwStreamInfo>,
)
    ensures
        is_subsequence(positions_of(sorted_streams(order, streams)), order),
    decreases order.len(),
{
    if order.len() > 0 {
        let i = stream_index(streams, order[0]);
        lemma_stream_index(streams, order[0]);
        let rest = sorted_streams(order.drop_first(), without(streams, i));
        law_sorted_streams_follow_the_displays(order.drop_first(), without(streams, i));
        let all = positions_of(sorted_streams(order, streams));
        if i < streams.len() {
            assert(all.drop_first() =~= positions_of(rest));
            assert(all[0] == order[0]);
        } else {
            assert(all =~= positions_of(rest));
        }
    } else {
        assert(positions_of(sorted_streams(order, streams)) =~= Seq::empty());
    }
}

/// If a stream shows the main display, the sorted streams start with it.
pub proof fn law_main_display_comes_first(
    displays: Seq<DisplayInfo>,
    primary: int,
    streams: Seq<PwStreamInfo>,
    k: int,
)
    requires
        0 <= primary < displays.len(),
        0 <= k < streams.len(),
        streams[k].position == displays[primary].corner(),
    ensures
        ({
            let sorted = sorted_streams(display_order(displays, primary), streams);
            sorted.len() > 0 && sorted[0].position == displays[primary].corner()
        }),
{
    let order = display_order(displays, primary);
    assert(order[0] == displays[primary].corner());
    lemma_stream_index(streams, order[0]);
}

/// No two streams share a position.
pub open spec fn all_apart(streams: Seq<PwStreamInfo>) -> bool {
    forall|i: int, j: int|
        0 <= i < j < streams.len() ==> (#[trigger] streams[i]).position != (
        #[trigger] streams[j]).position
}

/// Every stream stands at one of the places.
pub open spec fn all_placed(order: Seq<(i32, i32)>, streams: Seq<PwStreamInfo>) -> bool {
    forall|i: int| 0 <= i < streams.len() ==> order.contains((#[trigger] streams[i]).position)
}

/// Streams that show different displays are all kept.
pub proof fn law_sorting_loses_no_placed_stream(
    order: Seq<(i32, i32)>,
    streams: Seq<PwStreamInfo>,
)
    requires
        all_apart(streams),
        all_placed(order, streams),
    ensures
        sorted_streams(order, streams).len() == streams.len(),
    decreases order.len(),
{
    if order.len() == 0 {
        if streams.len() > 0 {
            assert(order.contains(streams[0].position));
        }
    } else {
        let i = stream_index(streams, order[0]);
        lemma_stream_index(streams, order[0]);
        let left = without(streams, i);
        let rest = order.drop_first();
        assert forall|a: int| 0 <= a < left.len() implies rest.contains(
            (#[trigger] left[a]).position,
        ) by {
            let b = if i < streams.len() && a >= i {
                a + 1
            } else {
                a
            };
            assert(left[a] == streams[b]);
            assert(order.contains(streams[b].position));
            let at = choose|at: int| 0 <= at < order.len() && order[at] == streams[b].position;
            if at == 0 {
                if i < streams.len() {
                    if b < i {
                        assert(streams[b].position != order[0]);
                    } else {
                        assert(streams[i].position != streams[b].position);
                    }
                } else {
                    assert(streams[b].position != order[0]);
                }
            }
            assert(rest[at - 1] == order[at]);
        }
        assert forall|a: int, c: int| 0 <= a < c < left.len() implies (#[trigger] left[a]).position
            != (#[trigger] left[c]).position by {
            let b = if i < streams.len() && a >= i {
                a + 1
            } else {
                a
            };
            let d = if i < streams.len() && c >= i {
                c + 1
            } else {
                c
            };
            assert(left[a] == streams[b]);
            assert(left[c] == streams[d]);
        }
        law_sorting_loses_no_placed_stream(rest, left);
    }
}

/// Streams and shared displays as pairs.
pub open spec fn pairs(streams: Seq<PwStreamInfo>, shared: Seq<Display>) -> Seq<
    (PwStreamInfo, Display),
> {
    Seq::new(streams.len(), |i: int| (streams[i], shared[i]))
}

/// Sorting keeps each stream with its shared display, and takes none of these pairs twice.
pub proof fn law_sorting_keeps_pairs(
    order: Seq<(i32, i32)>,
    streams: Seq<PwStreamInfo>,
    shared: Seq<Display>,
)
    requires
        streams.len() == shared.len(),
    ensures
        sorted_streams(order, streams).len() == sorted_displays(order, streams, shared).len(),
        pairs(
            sorted_streams(order, streams),
            sorted_displays(order, streams, shared),
        ).to_multiset().subset_of(pairs(streams, shared).to_multiset()),
    decreases order.len(),
{
    broadcast use vstd::seq_lib::group_to_multiset_ensures;
    broadcast use vstd::multiset::group_multiset_axioms;

    let before = pairs(streams, shared);
    let after = pairs(
        sorted_streams(order, streams),
        sorted_displays(order, streams, shared),
    );
    if order.len() == 0 {
        assert(after =~= Seq::empty());
        assert(after.to_multiset().len() == 0);
    } else {
        let i = stream_index(streams, order[0]);
        lemma_stream_index(streams, order[0]);
        let rest = order.drop_first();
        if i < streams.len() {
            let (ls, ld) = (streams.remove(i), shared.remove(i));
            law_sorting_keeps_pairs(rest, ls, ld);
            let inner = pairs(sorted_streams(rest, ls), sorted_displays(rest, ls, ld));
            assert(pairs(ls, ld) =~= before.remove(i));
            assert(after =~= seq![before[i]] + inner);
            assert(after.drop_first() =~= inner);
            assert(after.remove(0) =~= inner);
            assert(after[0] == before[i]);
            assert(inner.to_multiset() =~= after.to_multiset().remove(after[0]));
            assert(before.remove(i).to_multiset() =~= before.to_multiset().remove(before[i]));
            assert(before.contains(before[i]));
            assert(after.contains(after[0]));
            assert forall|p: (PwStreamInfo, Display)|
                after.to_multiset().count(p) <= before.to_multiset().count(p) by {
                assert(inner.to_multiset().count(p) <= before.remove(i).to_multiset().count(p));
            }
        } else {
            law_sorting_keeps_pairs(rest, streams, shared);
            assert(sorted_streams(order, streams) =~= sorted_streams(rest, streams));
        }
    }
}

/// Sorting keeps shared displays and their streams in step.
pub proof fn law_sorting_keeps_in_step(
    order: Seq<(i32, i32)>,
    streams: Seq<PwStreamInfo>,
    shared: Seq<Display>,
)
    requires
        in_step(shared, streams),
    ensures
        in_step(sorted_displays(order, streams, shared), sorted_streams(order, streams)),
    decreases order.len(),
{
    if order.len() > 0 {
        let i = stream_index(streams, order[0]);
        lemma_stream_index(streams, order[0]);
        let rest = order.drop_first();
        if i < streams.len() {
            let (ls, ld) = (streams.remove(i), shared.remove(i));
            assert forall|k: int| 0 <= k < ld.len() && (#[trigger] ld[k]) is WAYLAND implies
                ld[k].stream_position() == Some(ls[k].position) by {
                if k < i {
                    assert(shared[k] is WAYLAND);
                } else {
                    assert(shared[k + 1] is WAYLAND);
                }
            }
            law_sorting_keeps_in_step(rest, ls, ld);
            let (s, d) = (sorted_streams(order, streams), sorted_displays(order, streams, shared));
            let (rs, rd) = (sorted_streams(rest, ls), sorted_displays(rest, ls, ld));
            assert(s =~= seq![streams[i]] + rs);
            assert(d =~= seq![shared[i]] + rd);
            assert forall|k: int| 0 <= k < d.len() && (#[trigger] d[k]) is WAYLAND implies
                d[k].stream_position() == Some(s[k].position) by {
                if k > 0 {
                    assert(rd[k - 1] is WAYLAND);
                }
            }
        } else {
            law_sorting_keeps_in_step(rest, streams, shared);
            assert(sorted_streams(order, streams) =~= sorted_streams(rest, streams));
        }
    }
}

/// Sorting captured streams leaves captured streams.
pub proof fn law_sorting_keeps_streams(
    order: Seq<(i32, i32)>,
    streams: Seq<PwStreamInfo>,
    shared: Seq<Display>,
)
    requires
        forall|i: int| 0 <= i < shared.len() ==> #[trigger] shared[i] is WAYLAND,
    ensures
        forall|i: int|
            0 <= i < sorted_displays(order, streams, shared).len()
                ==> #[trigger] sorted_displays(order, streams, shared)[i] is WAYLAND,
    decreases order.len(),
{
    if order.len() > 0 {
        let i = stream_index(streams, order[0]);
        lemma_stream_index(streams, order[0]);
        let rest = order.drop_first();
        if i < streams.len() {
            law_sorting_keeps_streams(rest, streams.remove(i), without(shared, i));
        } else {
            law_sorting_keeps_streams(rest, streams, shared);
        }
    }
}

/// The order begins with the main display, and the others follow as they are listed. Without a main
/// display all come as they are listed.
pub proof fn law_order_begins_with_the_main_display(
    displays: Seq<DisplayInfo>,
    primary: int,
    k: int,
)
    requires
        0 <= k < displays.len(),
    ensures
        display_order(displays, primary).len() == displays.len(),
        0 <= primary < displays.len() ==> display_order(displays, primary)[0] == (
            displays[primary].x,
            displays[primary].y,
        ),
        0 <= primary < displays.len() && k < primary ==> display_order(displays, primary)[k + 1]
            == (displays[k].x, displays[k].y),
        0 <= primary < displays.len() && k > primary ==> display_order(displays, primary)[k] == (
            displays[k].x,
            displays[k].y,
        ),
        !(0 <= primary < displays.len()) ==> display_order(displays, primary)[k] == (
            displays[k].x,
            displays[k].y,
        ),
{
}

/// A stream at one of the places is kept.
proof fn lemma_placed_stream_is_kept(
    order: Seq<(i32, i32)>,
    streams: Seq<PwStreamInfo>,
    n: int,
    b: int,
) -> (v: int)
    requires
        0 <= n < order.len(),
        0 <= b < streams.len(),
        order[n] == streams[b].position,
        all_apart(streams),
    ensures
        0 <= v < sorted_streams(order, streams).len(),
        sorted_streams(order, streams)[v] == streams[b],
    decreases order.len(),
{
    let i = stream_index(streams, order[0]);
    lemma_stream_index(streams, order[0]);
    let (rest, left) = (order.drop_first(), without(streams, i));
    if i == b {
        assert(sorted_streams(order, streams)[0] == streams[b]);
        0
    } else {
        if n == 0 {
            if i < b {
                assert(streams[i].position != streams[b].position);
            } else {
                assert(streams[b].position != order[0]);
            }
        }
        lemma_left_apart(streams, i);
        let c = if i < streams.len() && b > i {
            b - 1
        } else {
            b
        };
        assert(left[c] == streams[b]);
        let v = lemma_placed_stream_is_kept(rest, left, n - 1, c);
        let first = just(streams, i);
        assert(sorted_streams(order, streams) =~= first + sorted_streams(rest, left));
        v + first.len()
    }
}

/// Streams stay apart when one is taken away.
proof fn lemma_left_apart(streams: Seq<PwStreamInfo>, i: int)
    requires
        all_apart(streams),
        0 <= i,
    ensures
        all_apart(without(streams, i)),
{
    let left = without(streams, i);
    assert forall|a: int, c: int| 0 <= a < c < left.len() implies (#[trigger] left[a]).position != (
    #[trigger] left[c]).position by {
        let b = if i < streams.len() && a >= i {
            a + 1
        } else {
            a
        };
        let d = if i < streams.len() && c >= i {
            c + 1
        } else {
            c
        };
        assert(left[a] == streams[b]);
        assert(left[c] == streams[d]);
    }
}

/// Streams at places that come one after the other are kept one after the other.
proof fn lemma_streams_follow_the_order(
    order: Seq<(i32, i32)>,
    streams: Seq<PwStreamInfo>,
    m: int,
    n: int,
    a: int,
    b: int,
) -> (r: (int, int))
    requires
        0 <= m < n < order.len(),
        0 <= a < streams.len(),
        0 <= b < streams.len(),
        order[m] == streams[a].position,
        order[n] == streams[b].position,
        forall|x: int, y: int| 0 <= x < y < order.len() ==> order[x] != order[y],
        all_apart(streams),
    ensures
        0 <= r.0 < r.1 < sorted_streams(order, streams).len(),
        sorted_streams(order, streams)[r.0] == streams[a],
        sorted_streams(order, streams)[r.1] == streams[b],
    decreases order.len(),
{
    let i = stream_index(streams, order[0]);
    lemma_stream_index(streams, order[0]);
    let (rest, left) = (order.drop_first(), without(streams, i));
    let first = just(streams, i);
    assert(sorted_streams(order, streams) =~= first + sorted_streams(rest, left));
    assert(order[0] != order[n]);
    assert(i != b);
    lemma_left_apart(streams, i);
    let d = if i < streams.len() && b > i {
        b - 1
    } else {
        b
    };
    assert(left[d] == streams[b]);
    if m == 0 {
        if i != a {
            if i < a {
                assert(streams[i].position != streams[a].position);
            } else {
                assert(streams[a].position != order[0]);
            }
        }
        let v = lemma_placed_stream_is_kept(rest, left, n - 1, d);
        (0, v + 1)
    } else {
        assert(order[0] != order[m]);
        assert(i != a);
        let c = if i < streams.len() && a > i {
            a - 1
        } else {
            a
        };
        assert(left[c] == streams[a]);
        assert forall|x: int, y: int| 0 <= x < y < rest.len() implies rest[x] != rest[y] by {
            assert(order[x + 1] != order[y + 1]);
        }
        let r = lemma_streams_follow_the_order(rest, left, m - 1, n - 1, c, d);
        (r.0 + first.len(), r.1 + first.len())
    }
}

/// Two streams that show displays other than the main one come out in the order in which their
/// displays are listed.
pub proof fn law_other_displays_keep_their_order(
    displays: Seq<DisplayInfo>,
    primary: int,
    streams: Seq<PwStreamInfo>,
    i: int,
    j: int,
    a: int,
    b: int,
)
    requires
        0 <= i < j < displays.len(),
        i != primary,
        j != primary,
        forall|x: int, y: int|
            0 <= x < y < displays.len() ==> (#[trigger] displays[x]).x != (#[trigger] displays[y]).x
                || displays[x].y != displays[y].y,
        forall|x: int, y: int|
            0 <= x < y < streams.len() ==> (#[trigger] streams[x]).position != (
            #[trigger] streams[y]).position,
        0 <= a < streams.len(),
        0 <= b < streams.len(),
        streams[a].position == (displays[i].x, displays[i].y),
        streams[b].position == (displays[j].x, displays[j].y),
    ensures
        exists|u: int, v: int|
            0 <= u < v < sorted_streams(display_order(displays, primary), streams).len()
                && #[trigger] sorted_streams(display_order(displays, primary), streams)[u]
                == streams[a] && #[trigger] sorted_streams(
                display_order(displays, primary),
                streams,
            )[v] == streams[b],
{
    let order = display_order(displays, primary);
    law_order_begins_with_the_main_display(displays, primary, i);
    law_order_begins_with_the_main_display(displays, primary, j);
    let inside = 0 <= primary < displays.len();
    assert forall|x: int, y: int| 0 <= x < y < order.len() implies order[x] != order[y] by {
        let p = listed_at(displays, primary, x);
        let q = listed_at(displays, primary, y);
        law_order_begins_with_the_main_display(displays, primary, p);
        law_order_begins_with_the_main_display(displays, primary, q);
        if p < q {
            assert(displays[p].x != displays[q].x || displays[p].y != displays[q].y);
        } else {
            assert(displays[q].x != displays[p].x || displays[q].y != displays[p].y);
        }
    }
    let m = if inside && i < primary {
        i + 1
    } else {
        i
    };
    let n = if inside && j < primary {
        j + 1
    } else {
        j
    };
    let r = lemma_streams_follow_the_order(order, streams, m, n, a, b);
    let sorted = sorted_streams(order, streams);
    assert(sorted[r.0] == streams[a] && sorted[r.1] == streams[b]);
}

/// Which display stands at a place of the order.
spec fn listed_at(displays: Seq<DisplayInfo>, primary: int, k: int) -> int {
    if !(0 <= primary < displays.len()) {
        k
    } else if k == 0 {
        primary
    } else if k <= primary {
        k - 1
    } else {
        k
    }
}

/// A stream that shows a display is kept, if no two streams share a position; the one that shows the
/// main display is the first.
pub proof fn law_streams_on_displays_are_kept(
    displays: Seq<DisplayInfo>,
    primary: int,
    streams: Seq<PwStreamInfo>,
    i: int,
    a: int,
)
    requires
        0 <= i < displays.len(),
        forall|x: int, y: int|
            0 <= x < y < streams.len() ==> (#[trigger] streams[x]).position != (
            #[trigger] streams[y]).position,
        0 <= a < streams.len(),
        streams[a].position == (displays[i].x, displays[i].y),
    ensures
        sorted_streams(display_order(displays, primary), streams).contains(streams[a]),
        i == primary ==> sorted_streams(display_order(displays, primary), streams)[0] == streams[a],
{
    let order = display_order(displays, primary);
    law_order_begins_with_the_main_display(displays, primary, i);
    let inside = 0 <= primary < displays.len();
    let n = if i == primary {
        0
    } else if inside && i < primary {
        i + 1
    } else {
        i
    };
    let v = lemma_placed_stream_is_kept(order, streams, n, a);
    if i == primary {
        let at = stream_index(streams, order[0]);
        lemma_stream_index(streams, order[0]);
        if at < a {
            assert(streams[at].position != streams[a].position);
        } else if at > a {
            assert(streams[a].position != order[0]);
        }
    }
}

/// Every sorted stream is one of the streams, at the corner of a display, and its shared display is
/// the one that stood beside it.
pub proof fn law_sorted_pairs_were_pairs(
    order: Seq<(i32, i32)>,
    streams: Seq<PwStreamInfo>,
    shared: Seq<Display>,
    u: int,
)
    requires
        streams.len() == shared.len(),
        0 <= u < sorted_streams(order, streams).len(),
    ensures
        u < sorted_displays(order, streams, shared).len(),
        order.contains(sorted_streams(order, streams)[u].position),
        exists|a: int|
            0 <= a < streams.len() && sorted_streams(order, streams)[u] == #[trigger] streams[a]
                && sorted_displays(order, streams, shared)[u] == shared[a],
    decreases order.len(),
{
    let i = stream_index(streams, order[0]);
    lemma_stream_index(streams, order[0]);
    let rest = order.drop_first();
    let s = sorted_streams(order, streams);
    let d = sorted_displays(order, streams, shared);
    if i < streams.len() {
        let (ls, ld) = (streams.remove(i), shared.remove(i));
        assert(s =~= seq![streams[i]] + sorted_streams(rest, ls));
        assert(d =~= seq![shared[i]] + sorted_displays(rest, ls, ld));
        if u == 0 {
            assert(order[0] == s[0].position);
            assert(s[0] == streams[i] && d[0] == shared[i]);
        } else {
            law_sorted_pairs_were_pairs(rest, ls, ld, u - 1);
            let at = choose|at: int|
                0 <= at < ls.len() && sorted_streams(rest, ls)[u - 1] == #[trigger] ls[at]
                    && sorted_displays(rest, ls, ld)[u - 1] == ld[at];
            let b = if at < i {
                at
            } else {
                at + 1
            };
            assert(streams[b] == ls[at] && shared[b] == ld[at]);
            let w = choose|w: int| 0 <= w < rest.len() && rest[w] == s[u].position;
            assert(order[w + 1] == rest[w]);
        }
    } else {
        law_sorted_pairs_were_pairs(rest, streams, shared, u);
        assert(s =~= sorted_streams(rest, streams));
        let w = choose|w: int| 0 <= w < rest.len() && rest[w] == s[u].position;
        assert(order[w + 1] == rest[w]);
    }
}

} // verus!
