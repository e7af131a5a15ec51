//! Measuring and splitting text by grapheme clusters.

use unicode_segmentation::UnicodeSegmentation;
use unicode_width::UnicodeWidthStr;
use vstd::prelude::*;

verus! {

/// The extended grapheme clusters of a text, in order.
pub uninterp spec fn grapheme_clusters(text: Seq<char>) -> Seq<Seq<char>>;

/// The number of terminal columns that a piece of text is shown in.
pub uninterp spec fn display_width(text: Seq<char>) -> usize;

/// The character sequences of some strings.
pub open spec fn views(strings: Seq<String>) -> Seq<Seq<char>> {
    Seq::new(strings.len(), |i: int| strings[i]@)
}

/// The pieces one after the other, as one text.
pub open spec fn join(pieces: Seq<Seq<char>>) -> Seq<char>
    decreases pieces.len(),
{
    if pieces.len() == 0 {
        Seq::empty()
    } else {
        join(pieces.drop_last()) + pieces.last()
    }
}

/// Whether none of the pieces is empty.
pub open spec fn all_filled(pieces: Seq<Seq<char>>) -> bool {
    forall|i: int| 0 <= i < pieces.len() ==> (#[trigger] pieces[i]).len() > 0
}

/// The columns that a run of clusters is shown in: each cluster counts with
/// its own display width.
pub open spec fn cells(clusters: Seq<Seq<char>>) -> nat
    decreases clusters.len(),
{
    if clusters.len() == 0 {
        0
    } else {
        cells(clusters.drop_last()) + display_width(clusters.last()) as nat
    }
}

/// The columns that a text is shown in.
pub open spec fn text_cells(text: Seq<char>) -> nat {
    cells(grapheme_clusters(text))
}

/// How many leading clusters fit into `room` columns: the length of the
/// longest run from the start that is shown in at most `room` columns.
pub open spec fn fit_count(clusters: Seq<Seq<char>>, room: nat) -> nat
    decreases clusters.len(),
{
    if clusters.len() == 0 {
        0
    } else if cells(clusters) <= room {
        clusters.len()
    } else {
        fit_count(clusters.drop_last(), room)
    }
}

/// How many leading clusters stay on a line of `room` columns when the text
/// is split: those that fit, and one cluster at the least, so that a split
/// never leaves the line empty.
pub open spec fn keep_count(clusters: Seq<Seq<char>>, room: nat) -> nat {
    let fit = fit_count(clusters, room);
    if fit == 0 && clusters.len() > 0 {
        1
    } else {
        fit
    }
}

/// The character offset at which a text is split for a line of `room`
/// columns. It lies between two clusters.
pub open spec fn cut_at(text: Seq<char>, room: nat) -> nat {
    let clusters = grapheme_clusters(text);
    join(clusters.take(keep_count(clusters, room) as int)).len()
}

/// The clusters of `text`, each as a string of its own.
///
/// Calls `UnicodeSegmentation::graphemes` with extended clusters. The result
/// is named `grapheme_clusters`. Of it this states what the iterator's source
/// shows: it hands out consecutive slices of the text from its start to its
/// end, so their concatenation is the text, and it ends a slice only at a
/// boundary after its start, so none is empty.
#[verifier::external_body]
fn clusters_of(text: &str) -> (clusters: Vec<String>)
    ensures
        views(clusters@) == grapheme_clusters(text@),
        join(views(clusters@)) == text@,
        all_filled(views(clusters@)),
{
    UnicodeSegmentation::graphemes(text, true).map(|g| g.to_string()).collect()
}

/// The display width of `text`.
///
/// Calls `UnicodeWidthStr::width`. The result is named `display_width`.
#[verifier::external_body]
fn width_of(text: &str) -> (width: usize)
    ensures
        width == display_width(text@),
{
    UnicodeWidthStr::width(text)
}

/// A run of clusters is shown in no fewer columns than a shorter run from the
/// same start.
pub proof fn lemma_cells_grow(clusters: Seq<Seq<char>>, i: int, j: int)
    requires
        0 <= i <= j <= clusters.len(),
    ensures
        cells(clusters.take(i)) <= cells(clusters.take(j)),
    decreases j - i,
{
    if i < j {
        lemma_cells_grow(clusters, i, j - 1);
        assert(clusters.take(j).drop_last() =~= clusters.take(j - 1));
    }
}

/// The count of fitting clusters is the one `k` such that the first `k`
/// clusters fit and one more would not.
pub proof fn lemma_fit_count_is(clusters: Seq<Seq<char>>, room: nat, k: int)
    requires
        0 <= k <= clusters.len(),
        cells(clusters.take(k)) <= room,
        k < clusters.len() ==> cells(clusters.take(k + 1)) > room,
    ensures
        fit_count(clusters, room) == k,
    decreases clusters.len(),
{
    if clusters.len() == 0 {
    } else if k == clusters.len() {
        assert(clusters.take(k) =~= clusters);
    } else {
        lemma_cells_grow(clusters, k + 1, clusters.len() as int);
        assert(clusters.take(clusters.len() as int) =~= clusters);
        let shorter = clusters.drop_last();
        assert(shorter.take(k) =~= clusters.take(k));
        if k < shorter.len() {
            assert(shorter.take(k + 1) =~= clusters.take(k + 1));
        }
        lemma_fit_count_is(shorter, room, k);
    }
}

/// A text that is joined from pieces starts with what is joined from the
/// first of them, and goes on with what is joined from the others.
pub proof fn lemma_join_split(pieces: Seq<Seq<char>>, k: int)
    requires
        0 <= k <= pieces.len(),
    ensures
        join(pieces) == join(pieces.take(k)) + join(pieces.skip(k)),
    decreases pieces.len() - k,
{
    if k == pieces.len() {
        assert(pieces.take(k) =~= pieces);
        assert(pieces.skip(k) =~= Seq::<Seq<char>>::empty());
        assert(join(pieces) =~= join(pieces.take(k)) + join(pieces.skip(k)));
    } else {
        lemma_join_split(pieces, k + 1);
        assert(pieces.take(k + 1).drop_last() =~= pieces.take(k));
        assert(pieces.take(k + 1).last() == pieces[k]);
        lemma_join_first(pieces.skip(k));
        assert(pieces.skip(k).drop_first() =~= pieces.skip(k + 1));
        assert(join(pieces) =~= join(pieces.take(k)) + join(pieces.skip(k)));
    }
}

/// A text that is joined from pieces starts with the first piece.
pub proof fn lemma_join_first(pieces: Seq<Seq<char>>)
    requires
        pieces.len() > 0,
    ensures
        join(pieces) == pieces[0] + join(pieces.drop_first()),
    decreases pieces.len(),
{
    if pieces.len() == 1 {
        assert(pieces.drop_last() =~= Seq::<Seq<char>>::empty());
        assert(pieces.drop_first() =~= Seq::<Seq<char>>::empty());
        assert(join(pieces) =~= pieces[0] + join(pieces.drop_first()));
    } else {
        lemma_join_first(pieces.drop_last());
        assert(pieces.drop_last().drop_first() =~= pieces.drop_first().drop_last());
        assert(join(pieces) =~= pieces[0] + join(pieces.drop_first()));
    }
}

/// Where no piece is empty, the text joined from one piece or more is not
/// empty either.
pub proof fn lemma_join_filled(pieces: Seq<Seq<char>>)
    requires
        all_filled(pieces),
        pieces.len() > 0,
    ensures
        join(pieces).len() > 0,
{
    assert(pieces.last().len() > 0);
}

/// The columns that `text` is shown in, where they are no more than `room`.
/// A text without characters is shown in none.
pub fn measure(text: &str, room: u16) -> (width: Option<u16>)
    ensures
        match width {
            Some(w) => w == text_cells(text@) && w <= room,
            None => text_cells(text@) > room,
        },
        text@.len() == 0 ==> width == Some(0u16),
{
    let clusters = clusters_of(text);
    let ghost all = views(clusters@);
    proof {
        if text@.len() == 0 && all.len() > 0 {
            lemma_join_filled(all);
        }
    }
    let mut used: u16 = 0;
    let mut k: usize = 0;
    while k < clusters.len()
        invariant
            k <= clusters.len(),
            all == views(clusters@),
            all == grapheme_clusters(text@),
            used == cells(all.take(k as int)),
            used <= room,
            text@.len() == 0 ==> clusters@.len() == 0,
        decreases clusters.len() - k,
    {
        let w = width_of(clusters[k].as_str());
        proof {
            assert(all.take(k + 1).drop_last() =~= all.take(k as int));
            assert(all.take(k + 1).last() == clusters@[k as int]@);
        }
        assert(cells(all.take(k + 1)) == used + w);
        if w > (room - used) as usize {
            proof {
                lemma_cells_grow(all, k + 1, all.len() as int);
                assert(all.take(all.len() as int) =~= all);
            }
            return None;
        }
        used = used + w as u16;
        k = k + 1;
    }
    proof {
        assert(all.take(k as int) =~= all);
    }
    Some(used)
}

/// The character offset at which `text` is to be split for a line of `room`
/// columns: behind the last cluster that still fits, and behind the first
/// cluster where not even that one fits.
pub fn findsplit(text: &str, room: u16) -> (pos: usize)
    ensures
        pos == cut_at(text@, room as nat),
        pos <= text@.len(),
        text_cells(text@) > room ==> 0 < pos,
        text@.take(pos as int) == join(
            grapheme_clusters(text@).take(
                keep_count(grapheme_clusters(text@), room as nat) as int,
            ),
        ),
{
    let clusters = clusters_of(text);
    let total = text.unicode_len();
    let ghost all = views(clusters@);
    let mut used: u16 = 0;
    let mut pos: usize = 0;
    let mut k: usize = 0;
    let mut full = false;
    while k < clusters.len() && !full
        invariant
            k <= clusters.len(),
            all == views(clusters@),
            all == grapheme_clusters(text@),
            join(all) == text@,
            total == text@.len(),
            used == cells(all.take(k as int)),
            used <= room,
            pos == join(all.take(k as int)).len(),
            full ==> k < clusters.len() && cells(all.take(k + 1)) > room,
        decreases clusters.len() - k, if full { 0int } else { 1int },
    {
        let w = width_of(clusters[k].as_str());
        proof {
            assert(all.take(k + 1).drop_last() =~= all.take(k as int));
            assert(all.take(k + 1).last() == clusters@[k as int]@);
            lemma_join_split(all, k + 1);
        }
        assert(cells(all.take(k + 1)) == used + w);
        if w > (room - used) as usize {
            full = true;
        } else {
            used = used + w as u16;
            pos = pos + clusters[k].as_str().unicode_len();
            k = k + 1;
        }
    }
    proof {
        lemma_fit_count_is(all, room as nat, k as int);
        lemma_join_split(all, k as int);
    }
    if k == 0 && clusters.len() > 0 {
        proof {
            assert(all.take(1).drop_last() =~= Seq::<Seq<char>>::empty());
            assert(all.take(1).last() == clusters@[0]@);
            assert(join(all.take(1).drop_last()) =~= Seq::<char>::empty());
            assert(join(all.take(1)) =~= clusters@[0]@);
            lemma_join_split(all, 1);
        }
        pos = clusters[0].as_str().unicode_len();
    }
    proof {
        let keep = keep_count(all, room as nat) as int;
        lemma_join_split(all, keep);
        assert(text@.take(pos as int) =~= join(all.take(keep)));
        if text_cells(text@) > room {
            assert(all.take(all.len() as int) =~= all);
            assert(keep > 0);
            lemma_join_filled(all.take(keep));
        }
    }
    pos
}

/// The character of a decimal digit.
pub open spec fn digit(d: nat) -> char {
    if d == 0 {
        '0'
    } else if d == 1 {
        '1'
    } else if d == 2 {
        '2'
    } else if d == 3 {
        '3'
    } else if d == 4 {
        '4'
    } else if d == 5 {
        '5'
    } else if d == 6 {
        '6'
    } else if d == 7 {
        '7'
    } else if d == 8 {
        '8'
    } else {
        '9'
    }
}

/// A number written in decimal, without leading zeros.
pub open spec fn decimal(n: nat) -> Seq<char>
    decreases n,
{
    if n < 10 {
        seq![digit(n)]
    } else {
        decimal(n / 10).push(digit(n % 10))
    }
}

/// The one-character string of a decimal digit.
fn digit_str(d: u8) -> (s: &'static str)
    requires
        d < 10,
    ensures
        s@ == seq![digit(d as nat)],
{
    proof {
        reveal_strlit("0");
        reveal_strlit("1");
        reveal_strlit("2");
        reveal_strlit("3");
        reveal_strlit("4");
        reveal_strlit("5");
        reveal_strlit("6");
        reveal_strlit("7");
        reveal_strlit("8");
        reveal_strlit("9");
    }
    let s = if d == 0 {
        "0"
    } else if d == 1 {
        "1"
    } else if d == 2 {
        "2"
    } else if d == 3 {
        "3"
    } else if d == 4 {
        "4"
    } else if d == 5 {
        "5"
    } else if d == 6 {
        "6"
    } else if d == 7 {
        "7"
    } else if d == 8 {
        "8"
    } else {
        "9"
    };
    assert(s@ =~= seq![digit(d as nat)]);
    s
}

/// Writes a number in decimal.
pub fn decimal_string(n: u128) -> (s: String)
    ensures
        s@ == decimal(n as nat),
    decreases n,
{
    if n < 10 {
        digit_str(n as u8).to_owned()
    } else {
        let mut s = decimal_string(n / 10);
        s.append(digit_str((n % 10) as u8));
        assert(s@ =~= decimal(n as nat));
        s
    }
}

/// Cuts `text` in two at the character offset `mid`: the text keeps what
/// stands before it, and what stands behind it is handed back.
pub fn split_at_in_place(text: &mut String, mid: usize) -> (rest: String)
    requires
        mid <= old(text)@.len(),
    ensures
        final(text)@ == old(text)@.take(mid as int),
        rest@ == old(text)@.skip(mid as int),
        final(text)@ + rest@ == old(text)@,
{
    let total = text.as_str().unicode_len();
    let head = text.as_str().substring_char(0, mid).to_owned();
    let rest = text.as_str().substring_char(mid, total).to_owned();
    *text = head;
    assert(old(text)@.take(mid as int) + old(text)@.skip(mid as int) =~= old(text)@);
    rest
}

} // verus!
