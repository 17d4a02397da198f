//! Positional comparison of the open files: the offsets at which they do not
//! all hold the same byte.

use crate::bin_file::byte_at;
use crate::hex_view::HexView;
use vstd::prelude::*;

verus! {

/// The bytes of each viewed file, in the order of the views.
pub open spec fn files_of(views: Seq<HexView>) -> Seq<Seq<u8>> {
    Seq::new(views.len(), |i: int| views[i].file@)
}

/// Whether the files disagree at `offset`: two of them hold different bytes
/// there, or one holds a byte there and another ends before it.
pub open spec fn is_diff_offset(files: Seq<Seq<u8>>, offset: int) -> bool {
    exists|i: int, j: int|
        0 <= i < files.len() && 0 <= j < files.len() && #[trigger] byte_at(files[i], offset)
            != #[trigger] byte_at(files[j], offset)
}

/// The length of the longest file; zero without files.
pub open spec fn longest(files: Seq<Seq<u8>>) -> nat
    decreases files.len(),
{
    if files.len() == 0 {
        0
    } else if files.last().len() >= longest(files.drop_last()) {
        files.last().len()
    } else {
        longest(files.drop_last())
    }
}

/// Each offset is smaller than the next.
pub open spec fn strictly_increasing(offsets: Seq<usize>) -> bool {
    forall|i: int, j: int| 0 <= i < j < offsets.len() ==> offsets[i] < offsets[j]
}

/// The first of `offsets` that lies behind `after`.
pub open spec fn first_after(offsets: Seq<usize>, after: usize) -> Option<usize>
    decreases offsets.len(),
{
    if offsets.len() == 0 {
        None
    } else if offsets[0] > after {
        Some(offsets[0])
    } else {
        first_after(offsets.drop_first(), after)
    }
}

/// Where the offsets up to index `p` lie at or before `after` and the one at
/// `p` lies behind it, that one is the first behind `after`.
pub proof fn lemma_first_after(offsets: Seq<usize>, after: usize, p: int)
    requires
        0 <= p <= offsets.len(),
        forall|i: int| 0 <= i < p ==> offsets[i] <= after,
        p < offsets.len() ==> offsets[p] > after,
    ensures
        first_after(offsets, after) == if p < offsets.len() {
            Some(offsets[p])
        } else {
            None
        },
    decreases p,
{
    if p > 0 {
        let rest = offsets.drop_first();
        assert forall|i: int| 0 <= i < p - 1 implies rest[i] <= after by {
            assert(rest[i] == offsets[i + 1]);
        }
        if p < offsets.len() {
            assert(rest[p - 1] == offsets[p]);
        }
        lemma_first_after(rest, after, p - 1);
    }
}

/// No file is longer than the longest.
pub proof fn lemma_longest_bounds(files: Seq<Seq<u8>>, i: int)
    requires
        0 <= i < files.len(),
    ensures
        files[i].len() <= longest(files),
    decreases files.len(),
{
    if i < files.len() - 1 {
        lemma_longest_bounds(files.drop_last(), i);
    }
}

/// Behind the end of the longest file nothing differs.
pub proof fn lemma_no_diff_past_longest(files: Seq<Seq<u8>>, offset: int)
    requires
        offset >= longest(files),
    ensures
        !is_diff_offset(files, offset),
{
    assert forall|i: int| 0 <= i < files.len() implies #[trigger] byte_at(files[i], offset)
        is None by {
        lemma_longest_bounds(files, i);
    }
}

/// Fewer than two files never differ.
pub proof fn lemma_no_diff_below_two(files: Seq<Seq<u8>>, offset: int)
    requires
        files.len() < 2,
    ensures
        !is_diff_offset(files, offset),
{
}

/// Files differ at an offset exactly if one of them differs there from the
/// first.
pub proof fn lemma_diff_against_first(files: Seq<Seq<u8>>, offset: int)
    requires
        files.len() > 0,
    ensures
        is_diff_offset(files, offset) <==> exists|k: int|
            0 <= k < files.len() && #[trigger] byte_at(files[k], offset) != byte_at(
                files[0],
                offset,
            ),
{
    if is_diff_offset(files, offset) {
        let (i, j) = choose|i: int, j: int|
            0 <= i < files.len() && 0 <= j < files.len() && #[trigger] byte_at(files[i], offset)
                != #[trigger] byte_at(files[j], offset);
        if byte_at(files[i], offset) != byte_at(files[0], offset) {
        } else {
            assert(byte_at(files[j], offset) != byte_at(files[0], offset));
        }
    }
    if exists|k: int|
        0 <= k < files.len() && #[trigger] byte_at(files[k], offset) != byte_at(
            files[0],
            offset,
        ) {
        let k = choose|k: int|
            0 <= k < files.len() && #[trigger] byte_at(files[k], offset) != byte_at(
                files[0],
                offset,
            );
        assert(byte_at(files[k], offset) != byte_at(files[0], offset));
    }
}

/// Files that all hold the same bytes differ nowhere.
pub proof fn lemma_identical_files_do_not_differ(files: Seq<Seq<u8>>, offset: int)
    requires
        forall|i: int, j: int| 0 <= i < files.len() && 0 <= j < files.len() ==> files[i] == files[j],
    ensures
        !is_diff_offset(files, offset),
{
    if files.len() > 0 {
        assert forall|i: int| 0 <= i < files.len() implies #[trigger] byte_at(files[i], offset)
            == byte_at(files[0], offset) by {
            assert(files[i] == files[0]);
        }
    }
}

/// Of two files, one not longer than the other: inside the shorter file an
/// offset differs exactly if the two bytes there differ, and every offset
/// from the end of the shorter to the end of the longer one differs. The
/// order of the two files does not matter.
pub proof fn lemma_shorter_file_differs(short: Seq<u8>, long: Seq<u8>, offset: int)
    requires
        short.len() <= long.len(),
        0 <= offset < long.len(),
    ensures
        offset < short.len() ==> (is_diff_offset(seq![short, long], offset) <==> short[offset]
            != long[offset]),
        offset >= short.len() ==> is_diff_offset(seq![short, long], offset),
        is_diff_offset(seq![short, long], offset) <==> is_diff_offset(seq![long, short], offset),
{
    let files = seq![short, long];
    let swapped = seq![long, short];
    assert(files[0] == short && files[1] == long);
    assert(swapped[0] == long && swapped[1] == short);
    lemma_diff_against_first(files, offset);
    lemma_diff_against_first(swapped, offset);
    if byte_at(short, offset) != byte_at(long, offset) {
        assert(byte_at(files[1], offset) != byte_at(files[0], offset));
        assert(byte_at(swapped[1], offset) != byte_at(swapped[0], offset));
    }
}

/// Two files of the same length that hold the same bytes leave no offset
/// stored, where the stored offsets are those at which the files differ.
pub proof fn lemma_identical_files_store_nothing(files: Seq<Seq<u8>>, offsets: Seq<usize>)
    requires
        files.len() == 2,
        files[0].len() == files[1].len(),
        files[0] == files[1],
        forall|o: usize| offsets.contains(o) <==> is_diff_offset(files, o as int),
    ensures
        offsets.len() == 0,
{
    if offsets.len() > 0 {
        let o = offsets[0];
        assert(offsets.contains(o));
        lemma_identical_files_do_not_differ(files, o as int);
    }
}

/// Of two files, the first shorter than the second by `k` bytes, the stored
/// offsets hold every offset of the last `k` bytes of the longer file, and of
/// the offsets inside the shorter file exactly those at which the two bytes
/// differ; no offset behind the longer file is stored.
pub proof fn lemma_shorter_file_stores_tail(files: Seq<Seq<u8>>, k: nat, offsets: Seq<usize>)
    requires
        files.len() == 2,
        files[0].len() + k == files[1].len(),
        forall|o: usize| offsets.contains(o) <==> is_diff_offset(files, o as int),
    ensures
        forall|o: usize| files[0].len() <= o < files[1].len() ==> offsets.contains(o),
        forall|o: usize|
            o < files[0].len() ==> (offsets.contains(o) <==> files[0][o as int] != files[1][o as int]),
        forall|o: usize| o >= files[1].len() ==> !offsets.contains(o),
{
    let short = files[0];
    let long = files[1];
    assert(files =~= seq![short, long]);
    assert forall|o: usize| short.len() <= o < long.len() implies offsets.contains(o) by {
        lemma_shorter_file_differs(short, long, o as int);
    }
    assert forall|o: usize| o < short.len() implies (offsets.contains(o) <==> short[o as int]
        != long[o as int]) by {
        lemma_shorter_file_differs(short, long, o as int);
    }
    assert forall|o: usize| o >= long.len() implies !offsets.contains(o) by {
        assert forall|i: int| 0 <= i < files.len() implies #[trigger] byte_at(files[i], o as int)
            is None by {}
    }
}

/// The byte that `bytes` holds at `offset`, if it reaches that far.
pub fn get_byte(bytes: &Vec<u8>, offset: usize) -> (r: Option<u8>)
    ensures
        r == byte_at(bytes@, offset as int),
{
    if offset < bytes.len() {
        Some(bytes[offset])
    } else {
        None
    }
}

/// Whether two readings of a byte are the same.
fn same_byte(a: Option<u8>, b: Option<u8>) -> (r: bool)
    ensures
        r == (a == b),
{
    match (a, b) {
        (Some(x), Some(y)) => x == y,
        (None, None) => true,
        _ => false,
    }
}

/// Whether the viewed files disagree at `offset`.
pub fn files_differ_at(hex_views: &Vec<HexView>, offset: usize) -> (r: bool)
    ensures
        r == is_diff_offset(files_of(hex_views@), offset as int),
{
    let ghost files = files_of(hex_views@);
    if hex_views.len() < 2 {
        return false;
    }
    let first: Option<u8> = get_byte(&hex_views[0].file.bytes, offset);
    let mut k: usize = 1;
    while k < hex_views.len()
        invariant
            1 <= k <= hex_views.len(),
            files == files_of(hex_views@),
            first == byte_at(files[0], offset as int),
            forall|m: int| 0 <= m < k ==> #[trigger] byte_at(files[m], offset as int) == first,
        decreases hex_views.len() - k,
    {
        let here: Option<u8> = get_byte(&hex_views[k].file.bytes, offset);
        if !same_byte(here, first) {
            proof {
                assert(byte_at(files[k as int], offset as int) != byte_at(files[0], offset as int));
                lemma_diff_against_first(files, offset as int);
            }
            return true;
        }
        k += 1;
    }
    proof {
        lemma_diff_against_first(files, offset as int);
    }
    false
}

/// The length of the longest viewed file.
pub fn longest_file(hex_views: &Vec<HexView>) -> (r: usize)
    ensures
        r == longest(files_of(hex_views@)),
{
    let ghost files = files_of(hex_views@);
    let mut top: usize = 0;
    let mut k: usize = 0;
    while k < hex_views.len()
        invariant
            k <= hex_views.len(),
            files == files_of(hex_views@),
            top == longest(files.take(k as int)),
        decreases hex_views.len() - k,
    {
        assert(files.take(k + 1).drop_last() == files.take(k as int));
        let len: usize = hex_views[k].file.bytes.len();
        if len >= top {
            top = len;
        }
        k += 1;
    }
    assert(files.take(k as int) == files);
    top
}

/// The offsets at which the open files differ, and whether they are to be
/// shown. The offsets are kept in ascending order, each once.
#[derive(Debug)]
pub struct DiffEngine {
    enabled: bool,
    offsets: Vec<usize>,
}

impl View for DiffEngine {
    type V = Seq<usize>;

    closed spec fn view(&self) -> Seq<usize> {
        self.offsets@
    }
}

/// The number of offsets in `offsets` that are at most `bound`.
fn count_up_to(offsets: &Vec<usize>, bound: usize) -> (p: usize)
    requires
        strictly_increasing(offsets@),
    ensures
        p <= offsets.len(),
        forall|i: int| 0 <= i < p ==> offsets[i] <= bound,
        forall|i: int| p <= i < offsets.len() ==> offsets[i] > bound,
{
    let mut lo: usize = 0;
    let mut hi: usize = offsets.len();
    while lo < hi
        invariant
            lo <= hi <= offsets.len(),
            strictly_increasing(offsets@),
            forall|i: int| 0 <= i < lo ==> offsets[i] <= bound,
            forall|i: int| hi <= i < offsets.len() ==> offsets[i] > bound,
        decreases hi - lo,
    {
        let mid: usize = lo + (hi - lo) / 2;
        if offsets[mid] <= bound {
            lo = mid + 1;
        } else {
            hi = mid;
        }
    }
    lo
}

impl DiffEngine {
    #[verifier::type_invariant]
    spec fn ordered(&self) -> bool {
        strictly_increasing(self.offsets@)
    }

    /// Whether differences are to be shown.
    pub closed spec fn spec_enabled(&self) -> bool {
        self.enabled
    }

    /// An engine that knows of no difference and is switched off.
    pub fn new() -> (r: Self)
        ensures
            r@ == Seq::<usize>::empty(),
            !r.spec_enabled(),
    {
        DiffEngine { enabled: false, offsets: Vec::new() }
    }

    /// Whether differences are to be shown.
    #[verifier::when_used_as_spec(spec_enabled)]
    pub fn enabled(&self) -> (r: bool)
        ensures
            r == self.spec_enabled(),
    {
        self.enabled
    }

    /// Switches the display of differences on or off; the offsets stay.
    pub fn set_enabled(&mut self, enabled: bool)
        ensures
            final(self).spec_enabled() == enabled,
            final(self)@ == old(self)@,
    {
        proof {
            use_type_invariant(&*self);
        }
        self.enabled = enabled;
    }

    /// The stored offsets, ascending.
    pub fn offsets(&self) -> (r: &Vec<usize>)
        ensures
            r@ == self@,
            strictly_increasing(self@),
    {
        proof {
            use_type_invariant(self);
        }
        &self.offsets
    }

    /// Compares the viewed files anew. Afterwards the stored offsets are, in
    /// ascending order, exactly those at which the files differ; with fewer
    /// than two files there are none.
    pub fn recalculate(&mut self, hex_views: &Vec<HexView>)
        ensures
            final(self).spec_enabled() == old(self).spec_enabled(),
            strictly_increasing(final(self)@),
            forall|offset: usize|
                final(self)@.contains(offset) <==> is_diff_offset(
                    files_of(hex_views@),
                    offset as int,
                ),
            hex_views.len() < 2 ==> final(self)@.len() == 0,
    {
        let ghost files = files_of(hex_views@);
        let mut found: Vec<usize> = Vec::new();
        if hex_views.len() >= 2 {
            let top: usize = longest_file(hex_views);
            let mut offset: usize = 0;
            while offset < top
                invariant
                    offset <= top,
                    files == files_of(hex_views@),
                    strictly_increasing(found@),
                    forall|i: int| 0 <= i < found.len() ==> found[i] < offset,
                    forall|o: usize|
                        found@.contains(o) <==> o < offset && is_diff_offset(files, o as int),
                decreases top - offset,
            {
                let ghost before = found@;
                if files_differ_at(hex_views, offset) {
                    found.push(offset);
                    assert forall|o: usize|
                        found@.contains(o) <==> o < offset + 1 && is_diff_offset(
                            files,
                            o as int,
                        ) by {
                        if found@.contains(o) {
                            let i = choose|i: int| 0 <= i < found@.len() && found@[i] == o;
                            if i < before.len() {
                                assert(before[i] == o);
                                assert(before.contains(o));
                            }
                        }
                        if o < offset && is_diff_offset(files, o as int) {
                            assert(before.contains(o));
                            let i = choose|i: int| 0 <= i < before.len() && before[i] == o;
                            assert(found@[i] == o);
                        }
                        if o == offset {
                            assert(found@[found@.len() - 1] == o);
                        }
                    }
                }
                offset += 1;
            }
            assert forall|o: usize| found@.contains(o) <==> is_diff_offset(files, o as int) by {
                if o >= top {
                    lemma_no_diff_past_longest(files, o as int);
                }
            }
        } else {
            assert forall|o: usize| found@.contains(o) <==> is_diff_offset(files, o as int) by {
                lemma_no_diff_below_two(files, o as int);
            }
        }
        self.offsets = found;
    }

    /// Whether the files differ at `offset`, as last calculated.
    pub fn is_diff_at(&self, offset: usize) -> (r: bool)
        ensures
            r == self@.contains(offset),
    {
        proof {
            use_type_invariant(self);
        }
        let p: usize = count_up_to(&self.offsets, offset);
        if p > 0 && self.offsets[p - 1] == offset {
            assert(self@[p - 1] == offset);
            true
        } else {
            assert forall|i: int| 0 <= i < self@.len() implies self@[i] != offset by {
                if i < p - 1 {
                    assert(self@[i] < self@[p - 1]);
                }
            }
            false
        }
    }

    /// The first stored offset behind `after_offset`, if there is one. The
    /// search does not start over at the beginning of the file.
    pub fn get_next_diff(&self, after_offset: usize) -> (r: Option<usize>)
        ensures
            r == first_after(self@, after_offset),
            match r {
                Some(next) => {
                    &&& self@.contains(next)
                    &&& next > after_offset
                    &&& forall|i: int|
                        0 <= i < self@.len() && self@[i] > after_offset ==> next <= self@[i]
                },
                None => forall|i: int| 0 <= i < self@.len() ==> self@[i] <= after_offset,
            },
    {
        proof {
            use_type_invariant(self);
        }
        let p: usize = count_up_to(&self.offsets, after_offset);
        proof {
            lemma_first_after(self@, after_offset, p as int);
        }
        if p < self.offsets.len() {
            let next: usize = self.offsets[p];
            assert(self@[p as int] == next);
            assert forall|i: int| 0 <= i < self@.len() && self@[i] > after_offset implies next
                <= self@[i] by {
                if i > p {
                    assert(self@[p as int] < self@[i]);
                }
            }
            Some(next)
        } else {
            None
        }
    }
}

impl Default for DiffEngine {
    fn default() -> (r: Self)
        ensures
            r@ == Seq::<usize>::empty(),
            !r.spec_enabled(),
    {
        DiffEngine::new()
    }
}

} // verus!
