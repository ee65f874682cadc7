//! Markers for whitespace that the view draws visibly: which characters of a
//! laid-out line get one, and which of those are drawn under each setting.

use vstd::prelude::*;
use crate::display::{point_le, DisplayPoint};

verus! {

/// A character of Unicode's White_Space property.
pub open spec fn is_white_space(c: char) -> bool {
    let u = c as u32;
    (0x9 <= u <= 0xd) || u == 0x20 || u == 0x85 || u == 0xa0 || u == 0x1680 || (0x2000 <= u
        <= 0x200a) || u == 0x2028 || u == 0x2029 || u == 0x202f || u == 0x205f || u == 0x3000
}

/// Whether a character has Unicode's White_Space property, as
/// `char::is_whitespace` tells.
fn char_is_whitespace(c: char) -> (r: bool)
    ensures
        r == is_white_space(c),
{
    let u = c as u32;
    (0x9 <= u && u <= 0xd) || u == 0x20 || u == 0x85 || u == 0xa0 || u == 0x1680 || (0x2000 <= u
        && u <= 0x200a) || u == 0x2028 || u == 0x2029 || u == 0x202f || u == 0x205f || u == 0x3000
}

/// A marker drawn over whitespace, at a column of its line.
#[derive(Debug, Clone, Copy, PartialEq, Eq, Structural)]
pub enum Invisible {
    Tab { line_start_offset: usize },
    Whitespace { line_offset: usize },
}

/// A piece of a line's text in one style; a tab stands in a piece of its
/// own.
#[derive(Debug, Clone)]
pub struct LineChunk {
    pub text: Vec<char>,
    pub is_tab: bool,
}

/// What a line has gathered after some of its pieces: its length, whether
/// text other than whitespace has come, whether it reached the length
/// limit, and its markers.
pub struct LineScan {
    pub len: nat,
    pub seen_text: bool,
    pub exceeded: bool,
    pub invisibles: Seq<Invisible>,
}

/// The markers among the first `n` characters of a piece that starts at
/// column `base`: each whitespace character once text has come before it on
/// the line, or anywhere on a line that does not continue a wrapped one.
pub open spec fn scan_chars(
    text: Seq<char>,
    n: int,
    base: int,
    seen_text: bool,
    inside_wrap: bool,
) -> (Seq<Invisible>, bool)
    decreases n,
{
    if n <= 0 {
        (seq![], seen_text)
    } else {
        let (marks, seen) = scan_chars(text, n - 1, base, seen_text, inside_wrap);
        let ws = is_white_space(text[n - 1]);
        let seen_now = seen || !ws;
        if ws && (seen_now || !inside_wrap) {
            (marks.push(Invisible::Whitespace { line_offset: (base + n - 1) as usize }), seen_now)
        } else {
            (marks, seen_now)
        }
    }
}

/// A line after its first `k` pieces, cut at `max_len` characters.
pub open spec fn scan_line(chunks: Seq<LineChunk>, k: int, max_len: int, inside_wrap: bool) -> LineScan
    decreases k,
{
    if k <= 0 {
        LineScan { len: 0, seen_text: false, exceeded: false, invisibles: seq![] }
    } else {
        let s = scan_line(chunks, k - 1, max_len, inside_wrap);
        let text = chunks[k - 1].text@;
        if text.len() == 0 || s.exceeded {
            s
        } else {
            let room = max_len - s.len;
            let exceeded = s.len + text.len() > max_len;
            let taken = if exceeded {
                room
            } else {
                text.len() as int
            };
            if chunks[k - 1].is_tab {
                LineScan {
                    len: (s.len + taken) as nat,
                    seen_text: s.seen_text,
                    exceeded,
                    invisibles: if s.seen_text || !inside_wrap {
                        s.invisibles.push(Invisible::Tab { line_start_offset: s.len as usize })
                    } else {
                        s.invisibles
                    },
                }
            } else {
                let (marks, seen) = scan_chars(text, taken, s.len as int, s.seen_text, inside_wrap);
                LineScan {
                    len: (s.len + taken) as nat,
                    seen_text: seen,
                    exceeded,
                    invisibles: s.invisibles + marks,
                }
            }
        }
    }
}

/// The whitespace markers of one line made of `chunks`, cut at `max_len`
/// characters; `inside_wrap` where the line continues a soft-wrapped one,
/// whose leading padding gets no markers.
pub fn line_invisibles(chunks: &Vec<LineChunk>, max_len: usize, inside_wrap: bool) -> (r: Vec<
    Invisible,
>)
    ensures
        r@ == scan_line(chunks@, chunks@.len() as int, max_len as int, inside_wrap).invisibles,
{
    let mut invisibles: Vec<Invisible> = Vec::new();
    let mut len: usize = 0;
    let mut seen_text = false;
    let mut exceeded = false;
    let mut k: usize = 0;
    while k < chunks.len()
        invariant
            k <= chunks@.len(),
            len <= max_len,
            ({
                let s = scan_line(chunks@, k as int, max_len as int, inside_wrap);
                &&& s.len == len
                &&& s.seen_text == seen_text
                &&& s.exceeded == exceeded
                &&& s.invisibles == invisibles@
            }),
        decreases chunks@.len() - k,
    {
        let chunk = &chunks[k];
        let count = chunk.text.len();
        if count > 0 && !exceeded {
            let room = max_len - len;
            let over = count > room;
            let taken = if over {
                room
            } else {
                count
            };
            if chunk.is_tab {
                if seen_text || !inside_wrap {
                    invisibles.push(Invisible::Tab { line_start_offset: len });
                }
            } else {
                let ghost before = invisibles@;
                let ghost seen_before = seen_text;
                let mut i: usize = 0;
                while i < taken
                    invariant
                        taken <= count == chunk.text@.len(),
                        len + taken <= max_len,
                        i <= taken,
                        ({
                            let (marks, seen) = scan_chars(chunk.text@, i as int, len as int, seen_before, inside_wrap);
                            &&& invisibles@ == before + marks
                            &&& seen_text == seen
                        }),
                    decreases taken - i,
                {
                    let c = chunk.text[i];
                    let ws = char_is_whitespace(c);
                    seen_text = seen_text || !ws;
                    if ws && (seen_text || !inside_wrap) {
                        invisibles.push(Invisible::Whitespace { line_offset: len + i });
                    }
                    proof {
                        let (marks, seen) = scan_chars(chunk.text@, i as int, len as int, seen_before, inside_wrap);
                        assert(before + marks.push(Invisible::Whitespace { line_offset: (len + i) as usize })
                            =~= (before + marks).push(Invisible::Whitespace { line_offset: (len + i) as usize }));
                    }
                    i = i + 1;
                }
            }
            len = len + taken;
            exceeded = over;
        }
        k = k + 1;
    }
    invisibles
}

/// The whitespace markers that an editor of mode `mode` records for a
/// line: those of `line_invisibles` in a full editor, none in others.
pub fn invisibles_for_mode(
    mode: crate::metrics::EditorMode,
    chunks: &Vec<LineChunk>,
    max_len: usize,
    inside_wrap: bool,
) -> (r: Vec<Invisible>)
    ensures
        r@ == if mode == crate::metrics::EditorMode::Full {
            scan_line(chunks@, chunks@.len() as int, max_len as int, inside_wrap).invisibles
        } else {
            seq![]
        },
{
    match mode {
        crate::metrics::EditorMode::Full => line_invisibles(chunks, max_len, inside_wrap),
        _ => Vec::new(),
    }
}

/// The characters of a piece, each with whether it stands for a tab.
pub open spec fn tagged(c: LineChunk) -> Seq<(char, bool)> {
    c.text@.map_values(|ch: char| (ch, c.is_tab))
}

/// The characters of pieces in order, each with its tab flag.
pub open spec fn flat(pieces: Seq<LineChunk>) -> Seq<(char, bool)>
    decreases pieces.len(),
{
    if pieces.len() == 0 {
        seq![]
    } else {
        flat(pieces.drop_last()) + tagged(pieces.last())
    }
}

/// Lines written out: each line's characters, then a line break.
pub open spec fn joined(lines: Seq<Vec<LineChunk>>) -> Seq<(char, bool)>
    decreases lines.len(),
{
    if lines.len() == 0 {
        seq![]
    } else {
        joined(lines.drop_last()) + flat(lines.last()@) + seq![('\n', false)]
    }
}

pub open spec fn line_breaks(s: Seq<(char, bool)>) -> int
    decreases s.len(),
{
    if s.len() == 0 {
        0
    } else {
        line_breaks(s.drop_last()) + if s.last().0 == '\n' {
            1int
        } else {
            0
        }
    }
}

/// Splits the display's chunks into lines at line breaks, keeping each
/// piece's style, up to `max_line_count` lines: the text, with one more
/// break at its end, cut after that many breaks. Tabs stand in chunks of
/// their own, with no break.
pub fn split_lines(chunks: &Vec<LineChunk>, max_line_count: usize) -> (r: Vec<Vec<LineChunk>>)
    requires
        max_line_count >= 1,
        forall|k: int| 0 <= k < chunks@.len() && (#[trigger] chunks@[k]).is_tab ==> !chunks@[k].text@.contains('\n'),
    ensures
        r@.len() == if 1 + line_breaks(flat(chunks@)) <= max_line_count {
            1 + line_breaks(flat(chunks@))
        } else {
            max_line_count as int
        },
        joined(r@) == (flat(chunks@) + seq![('\n', false)]).subrange(0, joined(r@).len() as int),
        forall|i: int, j: int|
            0 <= i < r@.len() && 0 <= j < r@[i]@.len() ==> (#[trigger] r@[i]@[j]).text@.len() > 0
                && !r@[i]@[j].text@.contains('\n'),
{
    let mut lines: Vec<Vec<LineChunk>> = Vec::new();
    let mut line: Vec<LineChunk> = Vec::new();
    let ghost mut seen: Seq<(char, bool)> = seq![];
    let mut k: usize = 0;
    while k < chunks.len()
        invariant
            k <= chunks@.len(),
            max_line_count >= 1,
            forall|m: int| 0 <= m < chunks@.len() && (#[trigger] chunks@[m]).is_tab ==> !chunks@[m].text@.contains('\n'),
            seen == flat(chunks@.subrange(0, k as int)),
            joined(lines@) + flat(line@) == seen,
            lines@.len() == line_breaks(seen),
            lines@.len() < max_line_count,
            forall|i: int, j: int|
                0 <= i < lines@.len() && 0 <= j < lines@[i]@.len() ==> (#[trigger] lines@[i]@[j]).text@.len() > 0
                    && !lines@[i]@[j].text@.contains('\n'),
            forall|j: int| 0 <= j < line@.len() ==> (#[trigger] line@[j]).text@.len() > 0
                && !line@[j].text@.contains('\n'),
        decreases chunks@.len() - k,
    {
        let chunk = &chunks[k];
        let ghost before_chunk = seen;
        let mut piece: Vec<char> = Vec::new();
        let mut i: usize = 0;
        while i < chunk.text.len()
            invariant
                k < chunks@.len(),
                chunk == chunks@[k as int],
                max_line_count >= 1,
                chunk.is_tab ==> !chunk.text@.contains('\n'),
                i <= chunk.text@.len(),
                before_chunk == flat(chunks@.subrange(0, k as int)),
                seen == before_chunk + tagged(*chunk).subrange(0, i as int),
                joined(lines@) + flat(line@) + tagged(LineChunk { text: piece, is_tab: chunk.is_tab }) == seen,
                lines@.len() == line_breaks(seen),
                lines@.len() < max_line_count,
                forall|a: int, b: int|
                    0 <= a < lines@.len() && 0 <= b < lines@[a]@.len() ==> (#[trigger] lines@[a]@[b]).text@.len() > 0
                        && !lines@[a]@[b].text@.contains('\n'),
                forall|j: int| 0 <= j < line@.len() ==> (#[trigger] line@[j]).text@.len() > 0
                    && !line@[j].text@.contains('\n'),
                !piece@.contains('\n'),
            decreases chunk.text@.len() - i,
        {
            let c = chunk.text[i];
            let ghost old_seen = seen;
            proof {
                seen = seen.push((c, chunk.is_tab));
                assert(tagged(*chunk).subrange(0, i + 1) =~= tagged(*chunk).subrange(0, i as int).push((c, chunk.is_tab)));
                assert(seen.drop_last() =~= old_seen);
            }
            if c == '\n' {
                proof {
                    if chunk.is_tab {
                        assert(chunk.text@[i as int] == '\n');
                        assert(chunk.text@.contains('\n'));
                    }
                }
                let ghost old_lines = lines@;
                let ghost old_line = line@;
                if piece.len() > 0 {
                    let ghost before_push = line@;
                    line.push(LineChunk { text: piece, is_tab: chunk.is_tab });
                    proof {
                        assert(line@.drop_last() =~= before_push);
                    }
                }
                proof {
                    if piece@.len() == 0 {
                        assert(tagged(LineChunk { text: piece, is_tab: chunk.is_tab }) =~= seq![]);
                        assert(flat(line@) + seq![] =~= flat(line@));
                    }
                }
                let finished = line;
                lines.push(finished);
                line = Vec::new();
                piece = Vec::new();
                proof {
                    assert(lines@.drop_last() =~= old_lines);
                    assert(joined(lines@) =~= old_seen + seq![('\n', false)]);
                    assert(flat(line@) =~= seq![]);
                    assert(tagged(LineChunk { text: piece, is_tab: chunk.is_tab }) =~= seq![]);
                    assert(joined(lines@) + flat(line@) + tagged(LineChunk { text: piece, is_tab: chunk.is_tab }) =~= seen);
                }
                if lines.len() == max_line_count {
                    proof {
                        lemma_prefix_of_text(chunks@, k as int, i + 1, seen);
                    }
                    return lines;
                }
            } else {
                let ghost old_piece = piece@;
                piece.push(c);
                proof {
                    assert(tagged(LineChunk { text: piece, is_tab: chunk.is_tab }) =~= tagged(
                        LineChunk { text: piece, is_tab: chunk.is_tab },
                    ));
                    assert(piece@ =~= old_piece.push(c));
                    assert(tagged(LineChunk { text: piece, is_tab: chunk.is_tab }) =~= old_piece.map_values(
                        |ch: char| (ch, chunk.is_tab),
                    ).push((c, chunk.is_tab)));
                    assert(!piece@.contains('\n')) by {
                        if piece@.contains('\n') {
                            let w = choose|w: int| 0 <= w < piece@.len() && piece@[w] == '\n';
                            if w < old_piece.len() {
                                assert(old_piece[w] == '\n');
                            }
                        }
                    }
                }
            }
            i = i + 1;
        }
        proof {
            assert(tagged(*chunk).subrange(0, chunk.text@.len() as int) =~= tagged(*chunk));
            assert(chunks@.subrange(0, k + 1).drop_last() =~= chunks@.subrange(0, k as int));
        }
        if piece.len() > 0 {
            let ghost before_push = line@;
            line.push(LineChunk { text: piece, is_tab: chunk.is_tab });
            proof {
                assert(line@.drop_last() =~= before_push);
            }
        } else {
            proof {
                assert(tagged(LineChunk { text: piece, is_tab: chunk.is_tab }) =~= seq![]);
                assert(flat(line@) + seq![] =~= flat(line@));
            }
        }
        k = k + 1;
    }
    proof {
        assert(chunks@.subrange(0, chunks@.len() as int) =~= chunks@);
    }
    let ghost old_lines = lines@;
    lines.push(line);
    proof {
        assert(lines@.drop_last() =~= old_lines);
        let full = flat(chunks@) + seq![('\n', false)];
        assert(joined(lines@) =~= full);
        assert(full.drop_last() =~= flat(chunks@));
        assert(full.subrange(0, full.len() as int) =~= full);
    }
    lines
}

/// Text read up to a break inside chunk `k` is a prefix of the whole text
/// with its closing break, and holds the breaks counted so far.
proof fn lemma_prefix_of_text(chunks: Seq<LineChunk>, k: int, i: int, seen: Seq<(char, bool)>)
    requires
        0 <= k < chunks.len(),
        0 <= i <= chunks[k].text@.len(),
        seen == flat(chunks.subrange(0, k)) + tagged(chunks[k]).subrange(0, i),
    ensures
        seen == (flat(chunks) + seq![('\n', false)]).subrange(0, seen.len() as int),
        line_breaks(seen) <= line_breaks(flat(chunks)),
{
    lemma_flat_prefix(chunks, k + 1);
    lemma_flat_split(chunks.subrange(0, k + 1), chunks, k + 1);
    assert(chunks.subrange(0, k + 1).drop_last() =~= chunks.subrange(0, k));
    let whole = flat(chunks);
    let pre = flat(chunks.subrange(0, k + 1));
    assert(seen =~= pre.subrange(0, seen.len() as int));
    assert(seen =~= (whole + seq![('\n', false)]).subrange(0, seen.len() as int));
    lemma_breaks_prefix(whole, seen.len() as int);
    assert(whole.subrange(0, seen.len() as int) =~= seen);
}

proof fn lemma_flat_prefix(chunks: Seq<LineChunk>, k: int)
    requires
        0 <= k <= chunks.len(),
    ensures
        flat(chunks.subrange(0, k)).len() <= flat(chunks).len(),
        flat(chunks) == flat(chunks.subrange(0, k)) + flat(chunks.subrange(k, chunks.len() as int)),
    decreases chunks.len() - k,
{
    lemma_flat_concat(chunks.subrange(0, k), chunks.subrange(k, chunks.len() as int));
    assert(chunks.subrange(0, k) + chunks.subrange(k, chunks.len() as int) =~= chunks);
}

proof fn lemma_flat_concat(a: Seq<LineChunk>, b: Seq<LineChunk>)
    ensures
        flat(a + b) == flat(a) + flat(b),
    decreases b.len(),
{
    if b.len() == 0 {
        assert(a + b =~= a);
        assert(flat(a) + flat(b) =~= flat(a));
    } else {
        lemma_flat_concat(a, b.drop_last());
        assert((a + b).drop_last() =~= a + b.drop_last());
        assert(flat(a) + flat(b.drop_last()) + tagged(b.last()) =~= flat(a) + (flat(b.drop_last())
            + tagged(b.last())));
    }
}

proof fn lemma_flat_split(pre: Seq<LineChunk>, chunks: Seq<LineChunk>, k: int)
    requires
        0 <= k <= chunks.len(),
        pre == chunks.subrange(0, k),
    ensures
        flat(chunks).subrange(0, flat(pre).len() as int) == flat(pre),
{
    lemma_flat_prefix(chunks, k);
    assert(flat(chunks).subrange(0, flat(pre).len() as int) =~= flat(pre));
}

proof fn lemma_breaks_prefix(s: Seq<(char, bool)>, n: int)
    requires
        0 <= n <= s.len(),
    ensures
        line_breaks(s.subrange(0, n)) <= line_breaks(s),
    decreases s.len() - n,
{
    if n < s.len() {
        lemma_breaks_prefix(s, n + 1);
        assert(s.subrange(0, n + 1).drop_last() =~= s.subrange(0, n));
    } else {
        assert(s.subrange(0, n) =~= s);
    }
}

/// Which whitespace the view shows markers for.
#[derive(Debug, Clone, Copy, PartialEq, Eq, Structural)]
pub enum ShowWhitespaceSetting {
    Hidden,
    Selection,
    All,
}

pub open spec fn invisible_offset(i: Invisible) -> int {
    match i {
        Invisible::Tab { line_start_offset } => line_start_offset as int,
        Invisible::Whitespace { line_offset } => line_offset as int,
    }
}

/// Whether a marker at `column` of `row` lies in one of the ranges.
pub open spec fn in_some_range(ranges: Seq<(DisplayPoint, DisplayPoint)>, row: u32, column: int) -> bool {
    exists|k: int|
        0 <= k < ranges.len() && point_le(ranges[k].0, DisplayPoint { row, column: column as u32 })
            && !point_le(ranges[k].1, DisplayPoint { row, column: column as u32 })
}

/// Whether a marker is drawn: never where markers are hidden, everywhere
/// where all are shown, and inside a selection where only those are.
pub open spec fn marker_drawn(
    setting: ShowWhitespaceSetting,
    ranges: Seq<(DisplayPoint, DisplayPoint)>,
    row: u32,
    i: Invisible,
) -> bool {
    match setting {
        ShowWhitespaceSetting::Hidden => false,
        ShowWhitespaceSetting::All => true,
        ShowWhitespaceSetting::Selection => in_some_range(ranges, row, invisible_offset(i)),
    }
}

/// Whether `p` lies in `start..end`, in row-major order.
fn point_in(start: DisplayPoint, end: DisplayPoint, p: DisplayPoint) -> (r: bool)
    ensures
        r == (point_le(start, p) && !point_le(end, p)),
{
    let after_start = start.row < p.row || (start.row == p.row && start.column <= p.column);
    let at_or_past_end = end.row < p.row || (end.row == p.row && end.column <= p.column);
    after_start && !at_or_past_end
}

/// The markers of row `row` that are drawn under `setting`, with the
/// selections `ranges`, in order.
pub fn drawn_invisibles(
    invisibles: &Vec<Invisible>,
    setting: ShowWhitespaceSetting,
    ranges: &Vec<(DisplayPoint, DisplayPoint)>,
    row: u32,
) -> (r: Vec<Invisible>)
    requires
        forall|j: int| 0 <= j < invisibles@.len() ==> invisible_offset(#[trigger] invisibles@[j]) <= u32::MAX,
    ensures
        r@ == invisibles@.filter(|i: Invisible| marker_drawn(setting, ranges@, row, i)),
{
    let mut drawn: Vec<Invisible> = Vec::new();
    let mut j: usize = 0;
    while j < invisibles.len()
        invariant
            j <= invisibles@.len(),
            forall|m: int| 0 <= m < invisibles@.len() ==> invisible_offset(#[trigger] invisibles@[m]) <= u32::MAX,
            drawn@ == invisibles@.subrange(0, j as int).filter(
                |i: Invisible| marker_drawn(setting, ranges@, row, i),
            ),
        decreases invisibles@.len() - j,
    {
        let invisible = invisibles[j];
        let offset = match invisible {
            Invisible::Tab { line_start_offset } => line_start_offset,
            Invisible::Whitespace { line_offset } => line_offset,
        };
        let shown = match setting {
            ShowWhitespaceSetting::Hidden => false,
            ShowWhitespaceSetting::All => true,
            ShowWhitespaceSetting::Selection => {
                let p = DisplayPoint { row, column: offset as u32 };
                let mut found = false;
                let mut k: usize = 0;
                while k < ranges.len()
                    invariant
                        k <= ranges@.len(),
                        p == (DisplayPoint { row, column: offset as u32 }),
                        offset == invisible_offset(invisible),
                        found == exists|m: int|
                            0 <= m < k && point_le(ranges@[m].0, p) && !point_le(ranges@[m].1, p),
                    decreases ranges@.len() - k,
                {
                    if point_in(ranges[k].0, ranges[k].1, p) {
                        found = true;
                    }
                    k = k + 1;
                }
                found
            },
        };
        proof {
            reveal(Seq::filter);
            assert(invisibles@.subrange(0, j + 1).drop_last() =~= invisibles@.subrange(0, j as int));
            assert(marker_drawn(setting, ranges@, row, invisible) == shown);
        }
        if shown {
            drawn.push(invisible);
        }
        j = j + 1;
    }
    proof {
        assert(invisibles@.subrange(0, invisibles@.len() as int) =~= invisibles@);
    }
    drawn
}

} // verus!
