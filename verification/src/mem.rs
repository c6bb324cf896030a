//! The text file handle of the hand-off, and the splitter that takes a line
//! of it apart.

use vstd::prelude::*;
use vstd::string::StringExecFns;
use crate::text::{chars_of, string_of};

verus! {

/// A text file by its path, with the lines last read from it.
#[derive(Debug)]
pub struct FileIO {
    pub filepath: String,
    pub contents: Vec<String>,
}

/// The pieces into which the occurrences of a non-empty `sep` cut
/// `s[start..]`, found from left to right without overlap, when no occurrence
/// begins in `start..scan`. There is one piece more than there are
/// occurrences; pieces may be empty.
pub open spec fn split_scan(s: Seq<char>, sep: Seq<char>, start: int, scan: int) -> Seq<Seq<char>>
    recommends
        sep.len() > 0,
        0 <= start <= scan <= s.len(),
    decreases s.len() - scan,
{
    if sep.len() == 0 || scan < 0 || scan + sep.len() > s.len() {
        seq![s.subrange(start, s.len() as int)]
    } else if s.subrange(scan, scan + sep.len()) == sep {
        seq![s.subrange(start, scan)] + split_scan(s, sep, scan + sep.len(), scan + sep.len())
    } else {
        split_scan(s, sep, start, scan + 1)
    }
}

/// The pieces into which `sep` cuts `s`. An empty `sep` cuts between any two
/// characters and at both ends.
pub open spec fn split_pieces(s: Seq<char>, sep: Seq<char>) -> Seq<Seq<char>> {
    if sep.len() == 0 {
        seq![Seq::<char>::empty()] + Seq::new(s.len(), |i: int| seq![s[i]]) + seq![
            Seq::<char>::empty(),
        ]
    } else {
        split_scan(s, sep, 0, 0)
    }
}

/// The pieces of the first `count` parts, each part cut by `sep`, in order.
pub open spec fn split_each(parts: Seq<Seq<char>>, sep: Seq<char>, count: int) -> Seq<Seq<char>>
    decreases count,
{
    if count <= 0 {
        Seq::<Seq<char>>::empty()
    } else {
        split_each(parts, sep, count - 1) + split_pieces(parts[count - 1], sep)
    }
}

/// `line` cut by the first `count` separators, one after the other.
pub open spec fn cut_by(line: Seq<char>, separators: Seq<Seq<char>>, count: int) -> Seq<Seq<char>>
    decreases count,
{
    if count <= 0 {
        seq![line]
    } else {
        let parts = cut_by(line, separators, count - 1);
        split_each(parts, separators[count - 1], parts.len() as int)
    }
}

/// The non-empty ones among the first `count` parts, in order.
pub open spec fn non_empty(parts: Seq<Seq<char>>, count: int) -> Seq<Seq<char>>
    decreases count,
{
    if count <= 0 {
        Seq::<Seq<char>>::empty()
    } else if parts[count - 1].len() > 0 {
        non_empty(parts, count - 1).push(parts[count - 1])
    } else {
        non_empty(parts, count - 1)
    }
}

/// What [`FileIO::phaser`] returns: `line` cut by every separator in turn,
/// without the empty pieces.
pub open spec fn phaser_spec(line: Seq<char>, separators: Seq<Seq<char>>) -> Seq<Seq<char>> {
    let parts = cut_by(line, separators, separators.len() as int);
    non_empty(parts, parts.len() as int)
}

/// The texts of a list of strings.
pub open spec fn texts_of(strings: Seq<String>) -> Seq<Seq<char>> {
    Seq::new(strings.len(), |i: int| strings[i]@)
}

/// The texts of a list of string slices.
pub open spec fn slices_of(strings: Seq<&str>) -> Seq<Seq<char>> {
    Seq::new(strings.len(), |i: int| strings[i]@)
}

/// The texts of a list of character vectors.
pub open spec fn chars_in(parts: Seq<Vec<char>>) -> Seq<Seq<char>> {
    Seq::new(parts.len(), |i: int| parts[i]@)
}

/// Appending a vector appends its text.
proof fn lemma_chars_in_push(parts: Seq<Vec<char>>, piece: Vec<char>)
    ensures
        chars_in(parts.push(piece)) == chars_in(parts).push(piece@),
{
    assert(chars_in(parts.push(piece)) =~= chars_in(parts).push(piece@));
}

/// Tests whether `sep` begins at `at` in `s`.
fn begins_at(s: &Vec<char>, sep: &Vec<char>, at: usize) -> (yes: bool)
    requires
        at + sep.len() <= s.len(),
    ensures
        yes == (s@.subrange(at as int, at + sep.len()) == sep@),
{
    let mut k: usize = 0;
    while k < sep.len()
        invariant
            k <= sep.len(),
            at + sep.len() <= s.len(),
            s@.subrange(at as int, at + k) == sep@.subrange(0, k as int),
        decreases sep.len() - k,
    {
        if s[at + k] != sep[k] {
            assert(s@.subrange(at as int, at + sep.len())[k as int] != sep@[k as int]);
            return false;
        }
        k = k + 1;
        assert(s@.subrange(at as int, at + k) =~= sep@.subrange(0, k as int));
    }
    assert(sep@.subrange(0, k as int) =~= sep@);
    true
}

/// The characters `s[from..to]`.
fn copy_range(s: &Vec<char>, from: usize, to: usize) -> (piece: Vec<char>)
    requires
        from <= to <= s.len(),
    ensures
        piece@ == s@.subrange(from as int, to as int),
{
    let mut piece: Vec<char> = Vec::new();
    let mut i: usize = from;
    while i < to
        invariant
            from <= i <= to <= s.len(),
            piece@ == s@.subrange(from as int, i as int),
        decreases to - i,
    {
        piece.push(s[i]);
        i = i + 1;
        assert(piece@ =~= s@.subrange(from as int, i as int));
    }
    piece
}

/// Appends the pieces of `s` cut by `sep` to `parts`.
fn split_into(parts: &mut Vec<Vec<char>>, s: &Vec<char>, sep: &Vec<char>)
    ensures
        chars_in(final(parts)@) == chars_in(old(parts)@) + split_pieces(s@, sep@),
{
    let ghost before = chars_in(parts@);
    if sep.len() == 0 {
        let ghost mut singles = Seq::<Seq<char>>::empty();
        let none: Vec<char> = Vec::new();
        proof {
            lemma_chars_in_push(parts@, none);
            assert(none@ =~= Seq::<char>::empty());
        }
        parts.push(none);
        let mut i: usize = 0;
        while i < s.len()
            invariant
                i <= s.len(),
                singles =~= Seq::new(i as nat, |j: int| seq![s@[j]]),
                chars_in(parts@) == before.push(Seq::<char>::empty()) + singles,
            decreases s.len() - i,
        {
            let mut one: Vec<char> = Vec::new();
            one.push(s[i]);
            proof {
                lemma_chars_in_push(parts@, one);
                assert(one@ =~= seq![s@[i as int]]);
                assert((before.push(Seq::<char>::empty()) + singles).push(one@) =~= before.push(
                    Seq::<char>::empty(),
                ) + singles.push(one@));
                singles = singles.push(one@);
            }
            parts.push(one);
            i = i + 1;
        }
        let none: Vec<char> = Vec::new();
        proof {
            lemma_chars_in_push(parts@, none);
            assert(none@ =~= Seq::<char>::empty());
        }
        parts.push(none);
        assert(chars_in(parts@) =~= before + split_pieces(s@, sep@));
        return ;
    }
    let mut start: usize = 0;
    let mut scan: usize = 0;
    let ghost mut done = Seq::<Seq<char>>::empty();
    assert(before + done =~= before);
    while sep.len() <= s.len() - scan
        invariant
            sep.len() > 0,
            start <= scan <= s.len(),
            chars_in(parts@) == before + done,
            split_scan(s@, sep@, 0, 0) == done + split_scan(s@, sep@, start as int, scan as int),
        decreases s.len() - scan,
    {
        if begins_at(s, sep, scan) {
            let piece = copy_range(s, start, scan);
            proof {
                lemma_chars_in_push(parts@, piece);
                assert((before + done).push(piece@) =~= before + done.push(piece@));
                assert(done + split_scan(s@, sep@, start as int, scan as int) =~= done.push(piece@)
                    + split_scan(s@, sep@, scan + sep.len(), scan + sep.len()));
                done = done.push(piece@);
            }
            parts.push(piece);
            scan = scan + sep.len();
            start = scan;
        } else {
            scan = scan + 1;
        }
    }
    let piece = copy_range(s, start, s.len());
    proof {
        lemma_chars_in_push(parts@, piece);
        assert((before + done).push(piece@) =~= before + done.push(piece@));
        assert(done + split_scan(s@, sep@, start as int, scan as int) =~= done.push(piece@));
    }
    parts.push(piece);
}

impl FileIO {
    /// A handle for the file at `filepath`, with nothing read yet.
    pub fn new(filepath: &str) -> (file: Self)
        ensures
            file.filepath@ == filepath@,
            file.contents@.len() == 0,
    {
        FileIO { filepath: String::from_str(filepath), contents: Vec::new() }
    }

    /// Cuts `line` at every occurrence of the first separator, the pieces at
    /// every occurrence of the second, and so on, and returns the pieces that
    /// are not empty, in order.
    pub fn phaser(line: &str, separators: &[&str]) -> (pieces: Vec<String>)
        ensures
            texts_of(pieces@) == phaser_spec(line@, slices_of(separators@)),
    {
        let ghost seps = slices_of(separators@);
        let mut parts: Vec<Vec<char>> = Vec::new();
        parts.push(chars_of(line));
        assert(chars_in(parts@) =~~= cut_by(line@, seps, 0));
        let mut k: usize = 0;
        while k < separators.len()
            invariant
                k <= separators.len(),
                seps == slices_of(separators@),
                chars_in(parts@) == cut_by(line@, seps, k as int),
            decreases separators.len() - k,
        {
            let sep = chars_of(separators[k]);
            let mut next: Vec<Vec<char>> = Vec::new();
            let mut j: usize = 0;
            assert(chars_in(next@) =~~= split_each(chars_in(parts@), sep@, 0));
            while j < parts.len()
                invariant
                    j <= parts.len(),
                    chars_in(next@) == split_each(chars_in(parts@), sep@, j as int),
                decreases parts.len() - j,
            {
                split_into(&mut next, &parts[j], &sep);
                j = j + 1;
            }
            assert(chars_in(parts@).len() == parts.len());
            parts = next;
            k = k + 1;
        }
        let ghost all = chars_in(parts@);
        let mut pieces: Vec<String> = Vec::new();
        let mut i: usize = 0;
        assert(texts_of(pieces@) =~~= non_empty(all, 0));
        while i < parts.len()
            invariant
                i <= parts.len(),
                all == chars_in(parts@),
                texts_of(pieces@) == non_empty(all, i as int),
            decreases parts.len() - i,
        {
            if parts[i].len() > 0 {
                pieces.push(string_of(&parts[i], 0, parts[i].len()));
                assert(parts@[i as int]@.subrange(0, parts@[i as int]@.len() as int) =~= parts@[i as int]@);
                assert(texts_of(pieces@) =~~= non_empty(all, i as int).push(all[i as int]));
            }
            i = i + 1;
        }
        assert(all.len() == parts.len());
        pieces
    }
}

/// Whether `part` stands in `s` from index `at` on.
pub open spec fn begins(s: Seq<char>, part: Seq<char>, at: int) -> bool {
    0 <= at && at + part.len() <= s.len() && s.subrange(at, at + part.len()) == part
}

/// Whether `part` occurs in `s` as a run of consecutive characters.
pub open spec fn occurs_in(part: Seq<char>, s: Seq<char>) -> bool {
    exists|at: int| #[trigger] begins(s, part, at)
}

/// Whether `piece` holds no occurrence of `sep`. Of an empty separator,
/// which occurs everywhere, nothing is asked.
pub open spec fn free_of(piece: Seq<char>, sep: Seq<char>) -> bool {
    sep.len() > 0 ==> !occurs_in(sep, piece)
}

/// Whether `piece` is a part of `s` that holds no occurrence of `sep`.
pub open spec fn piece_of(piece: Seq<char>, s: Seq<char>, sep: Seq<char>) -> bool {
    occurs_in(piece, s) && free_of(piece, sep)
}

/// Whether `piece` is a part of `line` that holds none of the first `count`
/// separators.
pub open spec fn clean_piece(
    piece: Seq<char>,
    line: Seq<char>,
    separators: Seq<Seq<char>>,
    count: int,
) -> bool {
    &&& occurs_in(piece, line)
    &&& forall|k: int| 0 <= k < count ==> #[trigger] free_of(piece, separators[k])
}

/// The pieces with `sep` put back between them.
pub open spec fn join_with(pieces: Seq<Seq<char>>, sep: Seq<char>) -> Seq<char>
    decreases pieces.len(),
{
    if pieces.len() == 0 {
        Seq::<char>::empty()
    } else if pieces.len() == 1 {
        pieces[0]
    } else {
        pieces[0] + sep + join_with(pieces.drop_first(), sep)
    }
}

/// A part of a part is a part.
pub proof fn lemma_part_of_part(inner: Seq<char>, middle: Seq<char>, outer: Seq<char>)
    requires
        occurs_in(inner, middle),
        occurs_in(middle, outer),
    ensures
        occurs_in(inner, outer),
{
    let i = choose|i: int| begins(middle, inner, i);
    let j = choose|j: int| begins(outer, middle, j);
    assert(outer.subrange(i + j, i + j + inner.len()) =~= middle.subrange(i, i + inner.len()));
    assert(begins(outer, inner, i + j));
}

/// A part of a piece that is free of a separator is free of it too.
proof fn lemma_part_stays_free(inner: Seq<char>, middle: Seq<char>, sep: Seq<char>)
    requires
        occurs_in(inner, middle),
        free_of(middle, sep),
    ensures
        free_of(inner, sep),
{
    if sep.len() > 0 && occurs_in(sep, inner) {
        lemma_part_of_part(sep, inner, middle);
    }
}

/// No occurrence of `sep` lies in `s[start..end]` when none begins at
/// `start..limit` in `s` and none that begins later fits before `end`.
proof fn lemma_range_is_free(s: Seq<char>, sep: Seq<char>, start: int, end: int, limit: int)
    requires
        sep.len() > 0,
        0 <= start <= end <= s.len(),
        end - sep.len() < limit,
        forall|j: int| start <= j < limit ==> !#[trigger] begins(s, sep, j),
    ensures
        piece_of(s.subrange(start, end), s, sep),
{
    let piece = s.subrange(start, end);
    assert(begins(s, piece, start));
    assert forall|a: int| !#[trigger] begins(piece, sep, a) by {
        if begins(piece, sep, a) {
            assert(s.subrange(start + a, start + a + sep.len()) =~= piece.subrange(
                a,
                a + sep.len(),
            ));
            assert(begins(s, sep, start + a));
        }
    }
}

/// The pieces cut by a non-empty separator are parts of the text, in which
/// the separator does not occur.
proof fn lemma_split_scan_pieces(s: Seq<char>, sep: Seq<char>, start: int, scan: int)
    requires
        sep.len() > 0,
        0 <= start <= scan <= s.len(),
        forall|j: int| start <= j < scan ==> !#[trigger] begins(s, sep, j),
    ensures
        split_scan(s, sep, start, scan).len() >= 1,
        forall|i: int|
            0 <= i < split_scan(s, sep, start, scan).len() ==> #[trigger] piece_of(
                split_scan(s, sep, start, scan)[i],
                s,
                sep,
            ),
    decreases s.len() - scan,
{
    let pieces = split_scan(s, sep, start, scan);
    if scan + sep.len() > s.len() {
        lemma_range_is_free(s, sep, start, s.len() as int, scan);
    } else if s.subrange(scan, scan + sep.len()) == sep {
        let next = scan + sep.len();
        lemma_range_is_free(s, sep, start, scan, scan);
        lemma_split_scan_pieces(s, sep, next, next);
        let rest = split_scan(s, sep, next, next);
        assert forall|i: int| 0 <= i < pieces.len() implies #[trigger] piece_of(pieces[i], s, sep) by {
            if i > 0 {
                assert(pieces[i] == rest[i - 1]);
                assert(piece_of(rest[i - 1], s, sep));
            }
        }
    } else {
        assert(!begins(s, sep, scan));
        lemma_split_scan_pieces(s, sep, start, scan + 1);
    }
}

/// Putting the separator back between the pieces gives the text back.
proof fn lemma_split_scan_join(s: Seq<char>, sep: Seq<char>, start: int, scan: int)
    requires
        sep.len() > 0,
        0 <= start <= scan <= s.len(),
    ensures
        split_scan(s, sep, start, scan).len() >= 1,
        join_with(split_scan(s, sep, start, scan), sep) == s.subrange(start, s.len() as int),
    decreases s.len() - scan,
{
    let pieces = split_scan(s, sep, start, scan);
    if scan + sep.len() > s.len() {
    } else if s.subrange(scan, scan + sep.len()) == sep {
        let next = scan + sep.len();
        lemma_split_scan_join(s, sep, next, next);
        let rest = split_scan(s, sep, next, next);
        assert(pieces.drop_first() =~= rest);
        assert(s.subrange(start, scan) + sep + s.subrange(next, s.len() as int) =~= s.subrange(
            start,
            s.len() as int,
        ));
    } else {
        lemma_split_scan_join(s, sep, start, scan + 1);
    }
}

/// Cutting by a non-empty separator and putting the separator back between
/// the pieces undo each other.
pub proof fn lemma_split_then_join(s: Seq<char>, sep: Seq<char>)
    requires
        sep.len() > 0,
    ensures
        join_with(split_pieces(s, sep), sep) == s,
{
    lemma_split_scan_join(s, sep, 0, 0);
    assert(s.subrange(0, s.len() as int) =~= s);
}

/// Every piece into which `sep` cuts `s` is a part of `s` in which `sep`
/// does not occur.
pub proof fn lemma_split_pieces(s: Seq<char>, sep: Seq<char>)
    ensures
        forall|i: int|
            0 <= i < split_pieces(s, sep).len() ==> #[trigger] piece_of(
                split_pieces(s, sep)[i],
                s,
                sep,
            ),
{
    let pieces = split_pieces(s, sep);
    if sep.len() == 0 {
        assert forall|i: int| 0 <= i < pieces.len() implies #[trigger] piece_of(pieces[i], s, sep) by {
            if i == 0 || i == pieces.len() - 1 {
                assert(pieces[i] =~= Seq::<char>::empty());
                assert(s.subrange(0, 0) =~= pieces[i]);
                assert(begins(s, pieces[i], 0));
            } else {
                assert(pieces[i] =~= seq![s[i - 1]]);
                assert(s.subrange(i - 1, i - 1 + 1) =~= pieces[i]);
                assert(begins(s, pieces[i], i - 1));
            }
        }
    } else {
        lemma_split_scan_pieces(s, sep, 0, 0);
    }
}

/// Cutting clean pieces by one more separator gives clean pieces.
proof fn lemma_split_each(
    parts: Seq<Seq<char>>,
    line: Seq<char>,
    separators: Seq<Seq<char>>,
    done: int,
    count: int,
)
    requires
        0 <= done < separators.len(),
        0 <= count <= parts.len(),
        forall|j: int| 0 <= j < parts.len() ==> #[trigger] clean_piece(parts[j], line, separators, done),
    ensures
        forall|i: int|
            0 <= i < split_each(parts, separators[done], count).len() ==> #[trigger] clean_piece(
                split_each(parts, separators[done], count)[i],
                line,
                separators,
                done + 1,
            ),
    decreases count,
{
    if count > 0 {
        let sep = separators[done];
        let part = parts[count - 1];
        let before = split_each(parts, sep, count - 1);
        let cut = split_pieces(part, sep);
        let all = split_each(parts, sep, count);
        lemma_split_each(parts, line, separators, done, count - 1);
        lemma_split_pieces(part, sep);
        assert(clean_piece(part, line, separators, done));
        assert forall|i: int| 0 <= i < all.len() implies #[trigger] clean_piece(
            all[i],
            line,
            separators,
            done + 1,
        ) by {
            if i < before.len() {
                assert(all[i] == before[i]);
                assert(clean_piece(before[i], line, separators, done + 1));
            } else {
                let piece = cut[i - before.len()];
                assert(all[i] == piece);
                assert(piece_of(piece, part, sep));
                lemma_part_of_part(piece, part, line);
                assert forall|k: int| 0 <= k < done + 1 implies #[trigger] free_of(
                    piece,
                    separators[k],
                ) by {
                    if k < done {
                        assert(free_of(part, separators[k]));
                        lemma_part_stays_free(piece, part, separators[k]);
                    }
                }
            }
        }
    }
}

/// Every piece of `line` cut by the first `count` separators is clean of
/// them.
proof fn lemma_cut_by(line: Seq<char>, separators: Seq<Seq<char>>, count: int)
    requires
        0 <= count <= separators.len(),
    ensures
        forall|i: int|
            0 <= i < cut_by(line, separators, count).len() ==> #[trigger] clean_piece(
                cut_by(line, separators, count)[i],
                line,
                separators,
                count,
            ),
    decreases count,
{
    let pieces = cut_by(line, separators, count);
    if count == 0 {
        assert(line.subrange(0, line.len() as int) =~= line);
        assert(begins(line, line, 0));
        assert forall|i: int| 0 <= i < pieces.len() implies #[trigger] clean_piece(
            pieces[i],
            line,
            separators,
            count,
        ) by {
            assert(pieces[i] == line);
        }
    } else {
        lemma_cut_by(line, separators, count - 1);
        let parts = cut_by(line, separators, count - 1);
        lemma_split_each(parts, line, separators, count - 1, parts.len() as int);
        assert(pieces == split_each(parts, separators[count - 1], parts.len() as int));
        assert forall|i: int| 0 <= i < pieces.len() implies #[trigger] clean_piece(
            pieces[i],
            line,
            separators,
            count,
        ) by {
            assert(clean_piece(pieces[i], line, separators, count - 1 + 1));
        }
    }
}

/// Dropping the empty pieces keeps the others as they are.
proof fn lemma_non_empty(
    parts: Seq<Seq<char>>,
    line: Seq<char>,
    separators: Seq<Seq<char>>,
    count: int,
)
    requires
        0 <= count <= parts.len(),
        forall|j: int|
            0 <= j < parts.len() ==> #[trigger] clean_piece(
                parts[j],
                line,
                separators,
                separators.len() as int,
            ),
    ensures
        forall|i: int|
            0 <= i < non_empty(parts, count).len() ==> (#[trigger] non_empty(parts, count)[i]).len()
                > 0,
        forall|i: int|
            0 <= i < non_empty(parts, count).len() ==> #[trigger] clean_piece(
                non_empty(parts, count)[i],
                line,
                separators,
                separators.len() as int,
            ),
    decreases count,
{
    if count > 0 {
        lemma_non_empty(parts, line, separators, count - 1);
        let kept = non_empty(parts, count);
        let before = non_empty(parts, count - 1);
        assert(clean_piece(parts[count - 1], line, separators, separators.len() as int));
        assert forall|i: int| 0 <= i < kept.len() implies (#[trigger] kept[i]).len() > 0 by {
            if i < before.len() {
                assert(kept[i] == before[i]);
            } else {
                assert(kept[i] == parts[count - 1]);
            }
        }
        assert forall|i: int| 0 <= i < kept.len() implies #[trigger] clean_piece(
            kept[i],
            line,
            separators,
            separators.len() as int,
        ) by {
            if i < before.len() {
                assert(kept[i] == before[i]);
                assert(clean_piece(before[i], line, separators, separators.len() as int));
            } else {
                assert(kept[i] == parts[count - 1]);
            }
        }
    }
}

/// What holds of every piece that [`FileIO::phaser`] returns: it is not
/// empty, it is a part of the line, and no separator occurs in it (but for
/// the empty separator, which occurs everywhere).
pub proof fn lemma_phaser_pieces(line: Seq<char>, separators: Seq<Seq<char>>, i: int, k: int)
    requires
        0 <= i < phaser_spec(line, separators).len(),
        0 <= k < separators.len(),
    ensures
        phaser_spec(line, separators)[i].len() > 0,
        occurs_in(phaser_spec(line, separators)[i], line),
        separators[k].len() > 0 ==> !occurs_in(separators[k], phaser_spec(line, separators)[i]),
{
    let parts = cut_by(line, separators, separators.len() as int);
    lemma_cut_by(line, separators, separators.len() as int);
    lemma_non_empty(parts, line, separators, parts.len() as int);
    let piece = phaser_spec(line, separators)[i];
    assert(clean_piece(piece, line, separators, separators.len() as int));
    assert(free_of(piece, separators[k]));
}

} // verus!
