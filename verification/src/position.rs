//! Positions: byte offsets into UTF-8 text on one side, lines and UTF-16 columns on the
//! other.
//!
//! Everything is stated over the bytes of the text. A byte that starts a character counts
//! for the UTF-16 code units of that character (two where the character takes four bytes,
//! one otherwise) and a continuation byte counts for none, so the column of an offset is
//! the number of UTF-16 code units between the start of its line and the offset.

use crate::text::{chars_between, is_char_range, slice_text};
use vstd::prelude::*;
use vstd::string::*;
use vstd::utf8::*;

verus! {

/// A place in a document as an editor names it: a line, and a column in UTF-16 code units.
/// Both count from zero.
#[derive(Clone, Copy, Debug, PartialEq, Eq, Structural)]
pub struct Position {
    pub line: u32,
    pub character: u32,
}

/// A pair of positions, the first one not after the second.
#[derive(Clone, Copy, Debug, PartialEq, Eq, Structural)]
pub struct Range {
    pub start: Position,
    pub end: Position,
}

/// The byte that ends a line.
pub open spec fn is_newline(byte: u8) -> bool {
    byte == 10
}

/// An offset at which a character starts, or the end of the text.
pub open spec fn is_boundary(bytes: Seq<u8>, offset: int) -> bool {
    &&& 0 <= offset <= bytes.len()
    &&& (offset == bytes.len() || !is_continuation_byte(bytes[offset]))
}

/// The UTF-16 code units that a byte stands for.
pub open spec fn units_of(byte: u8) -> nat {
    if is_continuation_byte(byte) {
        0
    } else if byte >= 0xf0 {
        2
    } else {
        1
    }
}

/// The number of line ends among the first `offset` bytes.
pub open spec fn lines_before(bytes: Seq<u8>, offset: int) -> nat
    decreases offset,
{
    if offset <= 0 {
        0
    } else {
        lines_before(bytes, offset - 1) + if is_newline(bytes[offset - 1]) {
            1nat
        } else {
            0nat
        }
    }
}

/// The offset at which the line of `offset` starts.
pub open spec fn line_start(bytes: Seq<u8>, offset: int) -> int
    decreases offset,
{
    if offset <= 0 {
        0
    } else if is_newline(bytes[offset - 1]) {
        offset
    } else {
        line_start(bytes, offset - 1)
    }
}

/// The UTF-16 code units of the bytes `from..to`.
pub open spec fn units_between(bytes: Seq<u8>, from: int, to: int) -> nat
    decreases to - from,
{
    if to <= from {
        0
    } else {
        units_between(bytes, from, to - 1) + units_of(bytes[to - 1])
    }
}

/// The column of an offset: the code units between the start of its line and the offset.
pub open spec fn column_of(bytes: Seq<u8>, offset: int) -> nat {
    units_between(bytes, line_start(bytes, offset), offset)
}

/// Whether `offset` lies at line `line`, column `character`.
pub open spec fn lies_at(bytes: Seq<u8>, offset: int, line: nat, character: nat) -> bool {
    &&& is_boundary(bytes, offset)
    &&& lines_before(bytes, offset) == line
    &&& column_of(bytes, offset) == character
}

/// The position of an offset, where the offset is inside the text and both coordinates
/// fit the position's fields.
pub open spec fn position_at(bytes: Seq<u8>, offset: int) -> Option<Position> {
    if 0 <= offset <= bytes.len() && lines_before(bytes, offset) <= u32::MAX && column_of(
        bytes,
        offset,
    ) <= u32::MAX {
        Some(
            (Position {
                line: lines_before(bytes, offset) as u32,
                character: column_of(bytes, offset) as u32,
            }),
        )
    } else {
        None
    }
}

/// The offset of a position: the character boundary that lies there, if there is one.
pub open spec fn offset_at(bytes: Seq<u8>, position: Position) -> Option<int> {
    if exists|o: int| lies_at(bytes, o, position.line as nat, position.character as nat) {
        Some(choose|o: int| lies_at(bytes, o, position.line as nat, position.character as nat))
    } else {
        None
    }
}

proof fn lemma_lines_monotone(bytes: Seq<u8>, a: int, b: int)
    requires
        a <= b,
    ensures
        lines_before(bytes, a) <= lines_before(bytes, b),
    decreases b - a,
{
    if a < b {
        lemma_lines_monotone(bytes, a, b - 1);
        if b - 1 <= 0 {
            assert(lines_before(bytes, b - 1) == 0);
        }
    }
}

/// Between two offsets with the same line count no line ends, and the two share their
/// line start.
proof fn lemma_same_line(bytes: Seq<u8>, a: int, b: int)
    requires
        0 <= a <= b,
        lines_before(bytes, a) == lines_before(bytes, b),
    ensures
        forall|k: int| a <= k < b ==> !is_newline(#[trigger] bytes[k]),
        line_start(bytes, a) == line_start(bytes, b),
    decreases b - a,
{
    if a < b {
        lemma_lines_monotone(bytes, a, b - 1);
        lemma_same_line(bytes, a, b - 1);
    }
}

/// Without a line end in `a..b` the two offsets have the same line count and line start.
proof fn lemma_no_newline_same_line(bytes: Seq<u8>, a: int, b: int)
    requires
        0 <= a <= b,
        forall|k: int| a <= k < b ==> !is_newline(#[trigger] bytes[k]),
    ensures
        lines_before(bytes, a) == lines_before(bytes, b),
        line_start(bytes, a) == line_start(bytes, b),
    decreases b - a,
{
    if a < b {
        lemma_no_newline_same_line(bytes, a, b - 1);
    }
}

proof fn lemma_units_split(bytes: Seq<u8>, from: int, mid: int, to: int)
    requires
        from <= mid <= to,
    ensures
        units_between(bytes, from, to) == units_between(bytes, from, mid) + units_between(
            bytes,
            mid,
            to,
        ),
    decreases to - mid,
{
    if mid < to {
        lemma_units_split(bytes, from, mid, to - 1);
    }
}

/// A stretch that starts at a character start holds at least one code unit.
proof fn lemma_units_positive(bytes: Seq<u8>, from: int, to: int)
    requires
        from < to,
        !is_continuation_byte(bytes[from]),
    ensures
        units_between(bytes, from, to) >= 1,
    decreases to - from,
{
    if from + 1 < to {
        lemma_units_positive(bytes, from, to - 1);
    } else {
        assert(units_between(bytes, from, from) == 0);
    }
}

proof fn lemma_line_start_bounds(bytes: Seq<u8>, offset: int)
    requires
        0 <= offset,
    ensures
        0 <= line_start(bytes, offset) <= offset,
        lines_before(bytes, line_start(bytes, offset)) == lines_before(bytes, offset),
        line_start(bytes, line_start(bytes, offset)) == line_start(bytes, offset),
    decreases offset,
{
    if offset > 0 && !is_newline(bytes[offset - 1]) {
        lemma_line_start_bounds(bytes, offset - 1);
    }
}

/// An offset before the start of a line lies on an earlier line.
proof fn lemma_before_line_start(bytes: Seq<u8>, start: int, offset: int)
    requires
        0 <= offset < start,
        line_start(bytes, start) == start,
    ensures
        lines_before(bytes, offset) < lines_before(bytes, start),
{
    lemma_line_start_bounds(bytes, start - 1);
    lemma_lines_monotone(bytes, offset, start - 1);
}

/// No two character boundaries of a text lie at the same line and column.
pub proof fn lemma_position_unique(bytes: Seq<u8>, a: int, b: int)
    requires
        is_boundary(bytes, a),
        is_boundary(bytes, b),
        lines_before(bytes, a) == lines_before(bytes, b),
        column_of(bytes, a) == column_of(bytes, b),
    ensures
        a == b,
{
    if a < b {
        lemma_apart(bytes, a, b);
    } else if b < a {
        lemma_apart(bytes, b, a);
    }
}

proof fn lemma_apart(bytes: Seq<u8>, a: int, b: int)
    requires
        is_boundary(bytes, a),
        0 <= a < b <= bytes.len(),
        lines_before(bytes, a) == lines_before(bytes, b),
    ensures
        column_of(bytes, a) < column_of(bytes, b),
{
    lemma_same_line(bytes, a, b);
    lemma_line_start_bounds(bytes, a);
    lemma_units_split(bytes, line_start(bytes, a), a, b);
    lemma_units_positive(bytes, a, b);
}

/// The offset of a position is the one boundary that lies there.
pub proof fn lemma_offset_at(bytes: Seq<u8>, offset: int, position: Position)
    requires
        lies_at(bytes, offset, position.line as nat, position.character as nat),
    ensures
        offset_at(bytes, position) == Some(offset),
{
    let other = choose|o: int| lies_at(bytes, o, position.line as nat, position.character as nat);
    lemma_position_unique(bytes, offset, other);
}

/// Converting an offset to a position and back gives the offset again: for every
/// character boundary of a text whose position can be written down, the offset of that
/// position is the boundary itself.
pub proof fn lemma_round_trip(bytes: Seq<u8>, offset: int)
    requires
        is_boundary(bytes, offset),
        position_at(bytes, offset) is Some,
    ensures
        offset_at(bytes, position_at(bytes, offset)->0) == Some(offset),
{
    lemma_offset_at(bytes, offset, position_at(bytes, offset)->0);
}

/// The position of a byte offset: `None` where the offset is behind the end of the text,
/// or where the line or the column does not fit 32 bits.
pub fn offset_to_position(text: &str, offset: usize) -> (position: Option<Position>)
    ensures
        position == position_at(text.spec_bytes(), offset as int),
{
    let bytes = text.as_bytes();
    if offset > bytes.len() {
        return None;
    }
    let mut line: usize = 0;
    let mut column: u128 = 0;
    let mut i: usize = 0;
    while i < offset
        invariant
            bytes@ == text.spec_bytes(),
            0 <= i <= offset <= bytes@.len(),
            line == lines_before(bytes@, i as int),
            line <= i,
            column == column_of(bytes@, i as int),
            column <= 2 * i,
        decreases offset - i,
    {
        let byte = bytes[i];
        proof {
            lemma_line_start_bounds(bytes@, i as int);
        }
        if byte == 10 {
            line = line + 1;
            column = 0;
            proof {
                assert(line_start(bytes@, i + 1) == i + 1);
                assert(units_between(bytes@, i + 1, i + 1) == 0);
            }
        } else {
            proof {
                assert(line_start(bytes@, i + 1) == line_start(bytes@, i as int));
            }
            if byte >= 0xf0 {
                column = column + 2;
            } else if byte < 0x80 || byte >= 0xc0 {
                column = column + 1;
            }
        }
        i = i + 1;
    }
    if line > u32::MAX as usize || column > u32::MAX as u128 {
        None
    } else {
        Some(Position { line: line as u32, character: column as u32 })
    }
}

/// The byte offset of a position: the character boundary at that line and column, and
/// `None` where the text has no such line, the line is shorter, or the column falls
/// inside a character.
pub fn position_to_offset(text: &str, position: Position) -> (offset: Option<usize>)
    ensures
        offset matches Some(o) ==> offset_at(text.spec_bytes(), position) == Some(o as int),
        offset is None ==> offset_at(text.spec_bytes(), position) is None,
{
    let bytes = text.as_bytes();
    let n = bytes.len();
    let ghost target_line = position.line as nat;
    let ghost target = position.character as nat;
    let mut line: u32 = 0;
    let mut i: usize = 0;
    while line < position.line
        invariant
            bytes@ == text.spec_bytes(),
            n == bytes@.len(),
            0 <= i <= n,
            line <= position.line,
            line == lines_before(bytes@, i as int),
            line_start(bytes@, i as int) == i,
            target == position.character,
            target_line == position.line,
        decreases n - i + (position.line - line),
    {
        if i >= n {
            proof {
                assert forall|o: int| !lies_at(bytes@, o, target_line, target) by {
                    if 0 <= o <= n {
                        lemma_lines_monotone(bytes@, o, n as int);
                    }
                }
            }
            return None;
        }
        let ghost start = i as int;
        let ghost before = line as nat;
        // Walk to the end of this line.
        while i < n && bytes[i] != 10
            invariant
                bytes@ == text.spec_bytes(),
                n == bytes@.len(),
                start <= i <= n,
                lines_before(bytes@, i as int) == before,
                before == line,
            decreases n - i,
        {
            i = i + 1;
        }
        if i >= n {
            proof {
                assert forall|o: int| !lies_at(bytes@, o, target_line, target) by {
                    if 0 <= o <= n {
                        lemma_lines_monotone(bytes@, o, n as int);
                    }
                }
            }
            return None;
        }
        i = i + 1;
        line = line + 1;
    }
    let start = i;
    let mut column: u64 = 0;
    loop
        invariant
            bytes@ == text.spec_bytes(),
            n == bytes@.len(),
            0 <= start <= i <= n,
            line == position.line,
            lines_before(bytes@, start as int) == target_line,
            line_start(bytes@, start as int) == start,
            forall|k: int| start <= k < i ==> !is_newline(#[trigger] bytes@[k]),
            column == units_between(bytes@, start as int, i as int),
            column <= target,
            target == position.character,
            target_line == position.line,
            forall|o: int| start <= o < i ==> !lies_at(bytes@, o, target_line, target),
        decreases n - i,
    {
        proof {
            lemma_no_newline_same_line(bytes@, start as int, i as int);
        }
        let at_boundary = i == n || bytes[i] < 0x80 || bytes[i] >= 0xc0;
        if at_boundary && column == position.character as u64 {
            proof {
                assert(lies_at(bytes@, i as int, target_line, target));
                lemma_offset_at(bytes@, i as int, position);
            }
            return Some(i);
        }
        if i == n || bytes[i] == 10 {
            proof {
                assert forall|o: int| !lies_at(bytes@, o, target_line, target) by {
                    if 0 <= o < start {
                        lemma_before_line_start(bytes@, start as int, o);
                    } else if i < o <= n {
                        lemma_lines_monotone(bytes@, i + 1, o);
                    }
                }
            }
            return None;
        }
        let byte = bytes[i];
        let step: u64 = if byte >= 0xf0 {
            2
        } else if byte < 0x80 || byte >= 0xc0 {
            1
        } else {
            0
        };
        if column + step > position.character as u64 {
            proof {
                assert forall|o: int| !lies_at(bytes@, o, target_line, target) by {
                    if 0 <= o < start {
                        lemma_before_line_start(bytes@, start as int, o);
                    } else if i < o <= n {
                        if lines_before(bytes@, o) == target_line {
                            lemma_lines_monotone(bytes@, start as int, i as int);
                            lemma_lines_monotone(bytes@, i as int, o);
                            lemma_same_line(bytes@, start as int, o);
                            lemma_units_split(bytes@, start as int, i + 1, o);
                        }
                    }
                }
            }
            return None;
        }
        column = column + step;
        i = i + 1;
    }
}

/// The offset at which the line that holds `at` ends: that of its line end, or the end of
/// the text.
pub open spec fn line_end(bytes: Seq<u8>, at: int) -> int
    decreases bytes.len() - at,
{
    if at < 0 || at >= bytes.len() {
        bytes.len() as int
    } else if is_newline(bytes[at]) {
        at
    } else {
        line_end(bytes, at + 1)
    }
}

/// The start and the end of the line that comes `line` lines behind the one that starts
/// at `at`. The end of a line is the offset of the byte that ends it.
pub open spec fn nth_line(bytes: Seq<u8>, at: int, line: nat) -> Option<(int, int)>
    decreases line,
{
    let end = line_end(bytes, at);
    if line == 0 {
        Some((at, end))
    } else if end >= bytes.len() {
        None
    } else {
        nth_line(bytes, end + 1, (line - 1) as nat)
    }
}

/// The text of line `line`, without the byte that ends it.
pub open spec fn line_text(text: Seq<char>, line: nat) -> Option<Seq<char>> {
    match nth_line(vstd::utf8::encode_utf8(text), 0, line) {
        Some((start, end)) => if is_char_range(text, start, end) {
            Some(chars_between(text, start, end))
        } else {
            None
        },
        None => None,
    }
}

/// The text of line `line`, with the byte that ends it where one does.
pub open spec fn whole_line(text: Seq<char>, line: nat) -> Option<Seq<char>> {
    match nth_line(vstd::utf8::encode_utf8(text), 0, line) {
        Some((start, end)) => {
            let stop = if end < vstd::utf8::encode_utf8(text).len() {
                end + 1
            } else {
                end
            };
            if is_char_range(text, start, stop) {
                Some(chars_between(text, start, stop))
            } else {
                None
            }
        },
        None => None,
    }
}

/// The start and the end of line `line` of `text`; `None` where the text has no such
/// line.
pub fn line_bounds(text: &str, line: usize) -> (found: Option<(usize, usize)>)
    ensures
        found is Some <==> nth_line(text.spec_bytes(), 0, line as nat) is Some,
        found matches Some((start, end)) ==> nth_line(text.spec_bytes(), 0, line as nat) == Some(
            (start as int, end as int),
        ) && start <= end <= text.spec_bytes().len(),
{
    let bytes = text.as_bytes();
    let n = bytes.len();
    let mut start: usize = 0;
    let mut left: usize = line;
    loop
        invariant
            bytes@ == text.spec_bytes(),
            n == bytes@.len(),
            0 <= start <= n,
            nth_line(bytes@, 0, line as nat) == nth_line(bytes@, start as int, left as nat),
        decreases left,
    {
        let mut end: usize = start;
        while end < n && bytes[end] != 10
            invariant
                n == bytes@.len(),
                start <= end <= n,
                line_end(bytes@, start as int) == line_end(bytes@, end as int),
            decreases n - end,
        {
            end = end + 1;
        }
        if left == 0 {
            return Some((start, end));
        }
        if end >= n {
            return None;
        }
        start = end + 1;
        left = left - 1;
    }
}

/// The text of line `line` of `text`, without the byte that ends it; `None` where the
/// text has no such line.
pub fn line_of(text: &str, line: usize) -> (found: Option<&str>)
    ensures
        found is Some <==> line_text(text@, line as nat) is Some,
        found matches Some(l) ==> line_text(text@, line as nat) == Some(l@),
{
    match line_bounds(text, line) {
        Some((start, end)) => slice_text(text, start, end),
        None => None,
    }
}

/// The text of line `line` of `text`, with the byte that ends it where one does; `None`
/// where the text has no such line.
pub fn whole_line_of(text: &str, line: usize) -> (found: Option<&str>)
    ensures
        found is Some <==> whole_line(text@, line as nat) is Some,
        found matches Some(l) ==> whole_line(text@, line as nat) == Some(l@),
{
    match line_bounds(text, line) {
        Some((start, end)) => {
            let stop = if end < text.as_bytes().len() {
                end + 1
            } else {
                end
            };
            slice_text(text, start, stop)
        },
        None => None,
    }
}

/// The offset at which the line of `offset` starts; `None` where the offset is behind the
/// end of the text.
pub fn start_of_line(text: &str, offset: usize) -> (start: Option<usize>)
    ensures
        start is Some <==> offset <= text.spec_bytes().len(),
        start matches Some(s) ==> s == line_start(text.spec_bytes(), offset as int),
{
    let bytes = text.as_bytes();
    if offset > bytes.len() {
        return None;
    }
    let mut k: usize = offset;
    while k > 0 && bytes[k - 1] != 10
        invariant
            bytes@ == text.spec_bytes(),
            0 <= k <= offset <= bytes@.len(),
            line_start(bytes@, offset as int) == line_start(bytes@, k as int),
        decreases k,
    {
        k = k - 1;
    }
    Some(k)
}

/// The offset of the last byte `byte` among the first `n` bytes.
pub open spec fn last_byte(bytes: Seq<u8>, byte: u8, n: nat) -> Option<int>
    decreases n,
{
    if n == 0 || n > bytes.len() {
        None
    } else if bytes[n - 1] == byte {
        Some(n - 1)
    } else {
        last_byte(bytes, byte, (n - 1) as nat)
    }
}

/// The column behind which the last `byte` of a line stands, where the line holds one
/// and the column fits 32 bits.
pub open spec fn column_of_last(line: Seq<char>, byte: u8) -> Option<u32> {
    let bytes = vstd::utf8::encode_utf8(line);
    match last_byte(bytes, byte, bytes.len()) {
        Some(at) => if units_between(bytes, 0, at) <= u32::MAX {
            Some(units_between(bytes, 0, at) as u32)
        } else {
            None
        },
        None => None,
    }
}

/// The column behind which the last `byte` of a line stands.
pub fn find_last_column(line: &str, byte: u8) -> (column: Option<u32>)
    ensures
        column == column_of_last(line@, byte),
{
    let bytes = line.as_bytes();
    let mut k: usize = bytes.len();
    while k > 0 && bytes[k - 1] != byte
        invariant
            bytes@ == line.spec_bytes(),
            0 <= k <= bytes@.len(),
            last_byte(bytes@, byte, bytes@.len()) == last_byte(bytes@, byte, k as nat),
        decreases k,
    {
        k = k - 1;
    }
    if k == 0 {
        return None;
    }
    let at = k - 1;
    let mut units: u128 = 0;
    let mut i: usize = 0;
    while i < at
        invariant
            bytes@ == line.spec_bytes(),
            0 <= i <= at < bytes@.len(),
            units == units_between(bytes@, 0, i as int),
            units <= 2 * i,
        decreases at - i,
    {
        let b = bytes[i];
        if b >= 0xf0 {
            units = units + 2;
        } else if b < 0x80 || b >= 0xc0 {
            units = units + 1;
        }
        i = i + 1;
    }
    if units > u32::MAX as u128 {
        None
    } else {
        Some(units as u32)
    }
}

/// The range between two offsets, where both have a position.
pub open spec fn range_at(bytes: Seq<u8>, start: int, end: int) -> Option<Range> {
    match (position_at(bytes, start), position_at(bytes, end)) {
        (Some(start), Some(end)) => Some(Range { start, end }),
        _ => None,
    }
}

/// The range between two offsets of `text`.
pub fn range_of(text: &str, start: usize, end: usize) -> (range: Option<Range>)
    ensures
        range == range_at(text.spec_bytes(), start as int, end as int),
{
    match offset_to_position(text, start) {
        Some(start) => match offset_to_position(text, end) {
            Some(end) => Some(Range { start, end }),
            None => None,
        },
        None => None,
    }
}

/// The UTF-16 code units of the first `left` characters from `at` on, as far as the line
/// goes.
pub open spec fn prefix_units(bytes: Seq<u8>, at: int, left: nat) -> nat
    decreases bytes.len() - at,
{
    if at < 0 || at >= bytes.len() || is_newline(bytes[at]) {
        0
    } else if is_continuation_byte(bytes[at]) {
        prefix_units(bytes, at + 1, left)
    } else if left == 0 {
        0
    } else {
        units_of(bytes[at]) + prefix_units(bytes, at + 1, (left - 1) as nat)
    }
}

/// A number as a field of a position: the largest one where it does not fit.
pub open spec fn clamped(n: nat) -> u32 {
    if n <= u32::MAX {
        n as u32
    } else {
        u32::MAX
    }
}

/// The start of the line that comes `line` lines behind the one that starts at `at`.
pub open spec fn nth_line_start(bytes: Seq<u8>, at: int, line: nat) -> Option<int> {
    match nth_line(bytes, at, line) {
        Some((start, _)) => Some(start),
        None => None,
    }
}

/// The position of a line and a column that counts characters: the column in UTF-16 code
/// units. A line that the text does not have counts as empty.
pub open spec fn position_of_column(text: Seq<char>, line: nat, column: nat) -> Position {
    let bytes = vstd::utf8::encode_utf8(text);
    Position {
        line: clamped(line),
        character: match nth_line_start(bytes, 0, line) {
            Some(start) => clamped(prefix_units(bytes, start, column)),
            None => 0,
        },
    }
}

/// The position of a line and a column that counts characters.
pub fn column_position(text: &str, line: usize, column: usize) -> (position: Position)
    ensures
        position == position_of_column(text@, line as nat, column as nat),
{
    let bytes = text.as_bytes();
    let n = bytes.len();
    let shown_line: u32 = if line > u32::MAX as usize {
        u32::MAX
    } else {
        line as u32
    };
    let mut start: usize = 0;
    let mut left: usize = line;
    while left > 0
        invariant
            bytes@ == text.spec_bytes(),
            n == bytes@.len(),
            0 <= start <= n,
            shown_line == clamped(line as nat),
            nth_line_start(bytes@, 0, line as nat) == nth_line_start(
                bytes@,
                start as int,
                left as nat,
            ),
        decreases left,
    {
        let mut end: usize = start;
        while end < n && bytes[end] != 10
            invariant
                n == bytes@.len(),
                start <= end <= n,
                line_end(bytes@, start as int) == line_end(bytes@, end as int),
            decreases n - end,
        {
            end = end + 1;
        }
        if end >= n {
            return Position { line: shown_line, character: 0 };
        }
        start = end + 1;
        left = left - 1;
    }
    let mut units: u128 = 0;
    let mut at: usize = start;
    let mut chars: usize = column;
    loop
        invariant
            bytes@ == text.spec_bytes(),
            n == bytes@.len(),
            start <= at <= n,
            shown_line == clamped(line as nat),
            nth_line_start(bytes@, 0, line as nat) == Some(start as int),
            units <= 2 * (at - start),
            prefix_units(bytes@, start as int, column as nat) == units + prefix_units(
                bytes@,
                at as int,
                chars as nat,
            ),
        ensures
            prefix_units(bytes@, at as int, chars as nat) == 0,
        decreases n - at,
    {
        if at >= n || bytes[at] == 10 {
            break ;
        }
        let b = bytes[at];
        if b >= 0x80 && b < 0xc0 {
            at = at + 1;
        } else if chars == 0 {
            break ;
        } else {
            if b >= 0xf0 {
                units = units + 2;
            } else {
                units = units + 1;
            }
            chars = chars - 1;
            at = at + 1;
        }
    }
    Position {
        line: shown_line,
        character: if units > u32::MAX as u128 {
            u32::MAX
        } else {
            units as u32
        },
    }
}

/// The UTF-16 code units that a character takes: two beyond the basic plane, else one.
pub open spec fn utf16_len(c: char) -> nat {
    if c as u32 >= 0x10000 {
        2
    } else {
        1
    }
}

/// The UTF-16 code units that a text takes.
pub open spec fn utf16_units(chars: Seq<char>) -> nat
    decreases chars.len(),
{
    if chars.len() == 0 {
        0
    } else {
        utf16_len(chars[0]) + utf16_units(chars.drop_first())
    }
}

/// The first byte of an encoded character is no continuation byte, and is at least
/// `0xf0` just where the character takes four bytes; the other bytes are continuation
/// bytes.
proof fn lemma_scalar_bytes(v: u32)
    by (bit_vector)
    ensures
        v <= 0x7f ==> (v & 0x7f) as u8 <= 0x7f,
        0xc0 <= (0xc0u8 | ((v >> 6) & 0x1f) as u8) <= 0xdf,
        0xe0 <= (0xe0u8 | ((v >> 12) & 0x0f) as u8) <= 0xef,
        0xf0 <= (0xf0u8 | ((v >> 18) & 0x7) as u8) <= 0xf7,
        0x80 <= (0x80u8 | (v & 0x3f) as u8) <= 0xbf,
        0x80 <= (0x80u8 | ((v >> 6) & 0x3f) as u8) <= 0xbf,
        0x80 <= (0x80u8 | ((v >> 12) & 0x3f) as u8) <= 0xbf,
{
}

/// The bytes of one encoded character count for the UTF-16 code units of the character.
proof fn lemma_scalar_units(c: char)
    ensures
        units_between(encode_scalar(c as u32), 0, encode_scalar(c as u32).len() as int)
            == utf16_len(c),
{
    let v = c as u32;
    let bytes = encode_scalar(v);
    char_is_scalar(c);
    lemma_scalar_bytes(v);
    reveal_with_fuel(units_between, 5);
    if has_width_1_encoding(v) {
        assert(bytes.len() == 1);
    } else if has_width_2_encoding(v) {
        assert(bytes.len() == 2);
    } else if has_width_3_encoding(v) {
        assert(bytes.len() == 3);
    } else {
        assert(bytes.len() == 4);
    }
}

/// What stands in front of a stretch of bytes does not change its code units.
proof fn lemma_units_behind(front: Seq<u8>, bytes: Seq<u8>, to: int)
    requires
        0 <= to <= bytes.len(),
    ensures
        units_between(front + bytes, front.len() as int, front.len() + to) == units_between(
            bytes,
            0,
            to,
        ),
    decreases to,
{
    if to > 0 {
        lemma_units_behind(front, bytes, to - 1);
        assert((front + bytes)[front.len() + to - 1] == bytes[to - 1]);
    }
}

/// What stands behind a stretch of bytes does not change its code units.
proof fn lemma_units_before(bytes: Seq<u8>, back: Seq<u8>, to: int)
    requires
        0 <= to <= bytes.len(),
    ensures
        units_between(bytes + back, 0, to) == units_between(bytes, 0, to),
    decreases to,
{
    if to > 0 {
        lemma_units_before(bytes, back, to - 1);
        assert((bytes + back)[to - 1] == bytes[to - 1]);
    }
}

/// The columns count UTF-16 code units: the bytes that encode a text count for as many
/// units as the text takes in UTF-16.
pub proof fn lemma_units_are_utf16(chars: Seq<char>)
    ensures
        units_between(encode_utf8(chars), 0, encode_utf8(chars).len() as int) == utf16_units(
            chars,
        ),
    decreases chars.len(),
{
    if chars.len() > 0 {
        let first = encode_scalar(chars[0] as u32);
        let rest = encode_utf8(chars.drop_first());
        lemma_scalar_units(chars[0]);
        lemma_units_are_utf16(chars.drop_first());
        lemma_units_split(first + rest, 0, first.len() as int, (first + rest).len() as int);
        lemma_units_before(first, rest, first.len() as int);
        lemma_units_behind(first, rest, rest.len() as int);
    }
}

/// The boundaries of an encoded text are the offsets at which its characters start, and
/// its end.
pub proof fn lemma_boundaries_are_characters(chars: Seq<char>, offset: int)
    ensures
        is_boundary(encode_utf8(chars), offset) <==> 0 <= offset <= encode_utf8(chars).len()
            && is_char_boundary(encode_utf8(chars), offset),
{
    let bytes = encode_utf8(chars);
    encode_utf8_valid_utf8(chars);
    if 0 <= offset < bytes.len() {
        is_char_boundary_iff_not_is_continuation_byte(bytes, offset);
    } else if offset == bytes.len() {
        is_char_boundary_start_end_of_seq(bytes);
    }
}

} // verus!
