//! Formulas and small helpers: footprints, modifiers, distances, the
//! coordinate grammar, and how things are drawn on the map.

use crate::engine::terrain::TerrainType;
use crate::engine::types::Coordinate;
use crate::engine::types::Size;
use vstd::prelude::*;
use vstd::string::StrSliceExecFns;
use vstd::string::StringExecFns;

verus! {

/// Side length of one arena cell, in thousandths of a map unit.
pub const CELL_SIZE: u64 = 2500;

/// Largest per-axis cell offset whose distance is still measured; two tiles
/// further apart on either axis count as infinitely far.
pub const MAX_SPAN: u64 = 0xffff_ffff;

/// Side length, in cells, of the square footprint of an actor of the given size.
pub open spec fn spec_tiles_from_size(size: Size) -> nat {
    match size {
        Size::Tiny => 1,
        Size::Small => 2,
        Size::Medium => 2,
        Size::Large => 4,
        Size::Huge => 6,
        Size::Gargantuan => 8,
    }
}

/// Side length, in cells, of the square footprint of an actor of the given size.
pub fn get_tiles_from_size(size: Size) -> (side: usize)
    ensures
        side == spec_tiles_from_size(size),
{
    match size {
        Size::Tiny => 1,
        Size::Small => 2,
        Size::Medium => 2,
        Size::Large => 4,
        Size::Huge => 6,
        Size::Gargantuan => 8,
    }
}

/// The modifier of an ability score: half of what the score exceeds ten by,
/// rounded down.
pub open spec fn spec_modifier_from_score(score: u32) -> int {
    (score - 10) / 2
}

/// The modifier of an ability score.
pub fn modifier_from_score(score: u32) -> (modifier: i32)
    ensures
        modifier == spec_modifier_from_score(score),
{
    (score / 2) as i32 - 5
}

/// Whether `r` is the square root of `n` rounded down.
pub open spec fn is_isqrt(n: nat, r: nat) -> bool {
    r * r <= n < (r + 1) * (r + 1)
}

/// The integer square root: the one `r` with `r * r <= n < (r + 1) * (r + 1)`.
pub open spec fn spec_isqrt(n: nat) -> nat {
    choose|r: nat| is_isqrt(n, r)
}

/// Any `r` whose square brackets `n` from below is the integer square root of `n`.
pub proof fn lemma_isqrt_unique(n: nat, r: nat)
    requires
        is_isqrt(n, r),
    ensures
        spec_isqrt(n) == r,
{
    let s = spec_isqrt(n);
    assert(is_isqrt(n, s));
    if s < r {
        assert((s + 1) * (s + 1) <= r * r) by (nonlinear_arith)
            requires
                s + 1 <= r,
        ;
    }
    if r < s {
        assert((r + 1) * (r + 1) <= s * s) by (nonlinear_arith)
            requires
                r + 1 <= s,
        ;
    }
}

/// Every number has an integer square root.
pub proof fn lemma_isqrt_exists(n: nat)
    ensures
        is_isqrt(n, spec_isqrt(n)),
    decreases n,
{
    if n == 0 {
        assert(0 * 0 <= 0 < (0 + 1) * (0 + 1)) by (nonlinear_arith);
        assert(is_isqrt(0, 0));
    } else {
        lemma_isqrt_exists((n - 1) as nat);
        let r = spec_isqrt((n - 1) as nat);
        if (r + 1) * (r + 1) <= n {
            assert(n < (r + 2) * (r + 2)) by (nonlinear_arith)
                requires
                    n - 1 < (r + 1) * (r + 1),
            ;
            assert(is_isqrt(n, r + 1));
        } else {
            assert(is_isqrt(n, r));
        }
    }
}

/// The distance between two tiles fits the number type of distances.
pub proof fn lemma_tile_center_dist_fits(c1: Coordinate, c2: Coordinate)
    ensures
        spec_tile_center_dist(c1, c2) <= u64::MAX,
{
    let dx = spec_abs(c1.x - c2.x);
    let dy = spec_abs(c1.y - c2.y);
    if dx <= MAX_SPAN && dy <= MAX_SPAN {
        let n = CELL_SIZE as nat * CELL_SIZE as nat * (dx * dx + dy * dy);
        lemma_isqrt_exists(n);
        let r = spec_isqrt(n);
        assert(n < 0x100_0000_0000_0000_0000_0000) by (nonlinear_arith)
            requires
                n == 2500 * 2500 * (dx * dx + dy * dy),
                dx <= 0xffff_ffff,
                dy <= 0xffff_ffff,
        ;
        assert(r < 0x1000_0000_0000) by (nonlinear_arith)
            requires
                r * r <= n,
                n < 0x100_0000_0000_0000_0000_0000,
        ;
    }
}

/// Along a row or a column the distance is exact: as many cell sizes as
/// the tiles are cells apart.
pub proof fn lemma_straight_distance(c1: Coordinate, c2: Coordinate)
    requires
        c1.x == c2.x || c1.y == c2.y,
        spec_abs(c1.x - c2.x) <= MAX_SPAN,
        spec_abs(c1.y - c2.y) <= MAX_SPAN,
    ensures
        spec_tile_center_dist(c1, c2) == CELL_SIZE * (spec_abs(c1.x - c2.x) + spec_abs(
            c1.y - c2.y,
        )),
{
    let dx = spec_abs(c1.x - c2.x);
    let dy = spec_abs(c1.y - c2.y);
    let cells = dx + dy;
    let n = CELL_SIZE as nat * CELL_SIZE as nat * (dx * dx + dy * dy);
    let r = CELL_SIZE as nat * cells;
    assert(dx * dx + dy * dy == cells * cells) by (nonlinear_arith)
        requires
            dx == 0 || dy == 0,
            cells == dx + dy,
    ;
    assert(r * r <= n < (r + 1) * (r + 1)) by (nonlinear_arith)
        requires
            n == 2500 * 2500 * (cells * cells),
            r == 2500 * cells,
    ;
    lemma_isqrt_unique(n, r);
}

/// Integer square root by bisection.
pub fn isqrt(n: u128) -> (r: u64)
    requires
        n < 0x100_0000_0000_0000_0000_0000,
    ensures
        r == spec_isqrt(n as nat),
        r < 0x1000_0000_0000,
{
    let mut lo: u128 = 0;
    let mut hi: u128 = 0x1000_0000_0000;
    assert(hi * hi == 0x100_0000_0000_0000_0000_0000) by (nonlinear_arith)
        requires
            hi == 0x1000_0000_0000,
    ;
    while hi - lo > 1
        invariant
            lo < hi <= 0x1000_0000_0000,
            lo * lo <= n < hi * hi,
        decreases hi - lo,
    {
        let mid: u128 = lo + (hi - lo) / 2;
        assert(mid * mid < 0x100_0000_0000_0000_0000_0000) by (nonlinear_arith)
            requires
                mid < 0x1000_0000_0000,
        ;
        if mid * mid <= n {
            lo = mid;
        } else {
            hi = mid;
        }
    }
    proof {
        lemma_isqrt_unique(n as nat, lo as nat);
    }
    lo as u64
}

/// The absolute value.
pub open spec fn spec_abs(v: int) -> nat {
    if v < 0 {
        (-v) as nat
    } else {
        v as nat
    }
}

/// Distance between the centres of two tiles, in thousandths of a map unit,
/// rounded down: the Euclidean distance in cells times [`CELL_SIZE`].
///
/// Tiles more than [`MAX_SPAN`] cells apart on either axis are infinitely
/// far from each other, which `u64::MAX` stands for.
pub open spec fn spec_tile_center_dist(c1: Coordinate, c2: Coordinate) -> nat {
    let dx = spec_abs(c1.x - c2.x);
    let dy = spec_abs(c1.y - c2.y);
    if dx > MAX_SPAN || dy > MAX_SPAN {
        u64::MAX as nat
    } else {
        spec_isqrt(CELL_SIZE as nat * CELL_SIZE as nat * (dx * dx + dy * dy))
    }
}

/// Distance between the centres of two tiles, in thousandths of a map
/// unit, rounded down.
pub fn tile_center_dist(c1: Coordinate, c2: Coordinate) -> (dist: u64)
    ensures
        dist == spec_tile_center_dist(c1, c2),
{
    let sx: i128 = c1.x as i128 - c2.x as i128;
    let sy: i128 = c1.y as i128 - c2.y as i128;
    let dx: u128 = if sx < 0 {
        (-sx) as u128
    } else {
        sx as u128
    };
    let dy: u128 = if sy < 0 {
        (-sy) as u128
    } else {
        sy as u128
    };
    if dx > MAX_SPAN as u128 || dy > MAX_SPAN as u128 {
        return u64::MAX;
    }
    assert(dx * dx <= 0xffff_ffff * 0xffff_ffff) by (nonlinear_arith)
        requires
            dx <= 0xffff_ffff,
    ;
    assert(dy * dy <= 0xffff_ffff * 0xffff_ffff) by (nonlinear_arith)
        requires
            dy <= 0xffff_ffff,
    ;
    let cells_sq: u128 = dx * dx + dy * dy;
    let scale: u128 = CELL_SIZE as u128 * CELL_SIZE as u128;
    assert(scale * cells_sq < 0x100_0000_0000_0000_0000_0000) by (nonlinear_arith)
        requires
            scale == 6250000,
            cells_sq <= 2 * (0xffff_ffff * 0xffff_ffff),
    ;
    isqrt(scale * cells_sq)
}

/// The character of the decimal digit `d`.
pub open spec fn spec_digit(d: nat) -> char {
    ('0' as nat + d) as char
}

/// The decimal notation of `n`, without leading zeros.
pub open spec fn spec_decimal(n: nat) -> Seq<char>
    decreases n,
{
    if n < 10 {
        seq![spec_digit(n)]
    } else {
        spec_decimal(n / 10).push(spec_digit(n % 10))
    }
}

/// The text of one decimal digit.
fn digit_text(d: usize) -> (text: &'static str)
    requires
        d < 10,
    ensures
        text@ == seq![spec_digit(d as nat)],
{
    proof {
        reveal_strlit("0123456789");
    }
    let text = "0123456789".substring_char(d, d + 1);
    assert(text@ =~= seq![spec_digit(d as nat)]);
    text
}

/// The decimal notation of `n`, without leading zeros.
pub fn decimal_text(n: usize) -> (text: String)
    ensures
        text@ == spec_decimal(n as nat),
    decreases n,
{
    if n < 10 {
        String::from_str(digit_text(n))
    } else {
        let text = decimal_text(n / 10).concat(digit_text(n % 10));
        assert(text@ =~= spec_decimal(n as nat));
        text
    }
}

/// The decimal notation of a signed number.
pub fn signed_decimal_text(n: isize) -> (text: String)
    ensures
        text@ == spec_signed_decimal(n as int),
{
    if n < 0 {
        proof {
            reveal_strlit("-");
        }
        let magnitude: usize = (-(n as i128)) as usize;
        let text = String::from_str("-").concat(decimal_text(magnitude).as_str());
        assert(text@ =~= spec_signed_decimal(n as int));
        text
    } else {
        decimal_text(n as usize)
    }
}

/// The name of the `n`-th instance of a creature: the name of the
/// creature, one space, and the number in decimal notation.
pub(crate) fn instance_name(name: &str, n: usize) -> (s: String)
    ensures
        s@ == name@ + seq![' '] + spec_decimal(n as nat),
{
    proof {
        reveal_strlit(" ");
    }
    let s = String::from_str(name).concat(" ").concat(decimal_text(n).as_str());
    assert(s@ =~= name@ + seq![' '] + spec_decimal(n as nat));
    s
}

/// Whether the character is one of the ten decimal digits.
pub open spec fn is_digit(c: char) -> bool {
    '0' <= c && c <= '9'
}

/// Where the run of digits that starts at `from` ends: the first position
/// at or after `from` that holds no digit, or the length of the text.
pub open spec fn digit_run(s: Seq<char>, from: int) -> int
    decreases s.len() - from,
{
    if from < 0 || from >= s.len() || !is_digit(s[from]) {
        from
    } else {
        digit_run(s, from + 1)
    }
}

/// The number that a text of decimal digits denotes.
pub open spec fn digits_value(s: Seq<char>) -> nat
    decreases s.len(),
{
    if s.len() == 0 {
        0
    } else {
        (10 * digits_value(s.drop_last()) + (s.last() as nat - '0' as nat)) as nat
    }
}

/// Whether the text is an absolute coordinate: digits, a comma, digits.
pub open spec fn is_absolute_coord(s: Seq<char>) -> bool {
    let comma = digit_run(s, 0);
    &&& 0 < comma < s.len()
    &&& s[comma] == ','
    &&& comma + 1 < digit_run(s, comma + 1)
    &&& digit_run(s, comma + 1) == s.len()
}

/// Where the vertical part of a relative coordinate starts: behind the
/// horizontal digits and the comma that may follow them.
pub open spec fn vertical_start(s: Seq<char>) -> int {
    let end = digit_run(s, 1);
    if end < s.len() && s[end] == ',' {
        end + 1
    } else {
        end
    }
}

/// Whether the text is a relative coordinate: `r` or `l` and digits, an
/// optional comma, `u` or `d` and digits.
pub open spec fn is_relative_coord(s: Seq<char>) -> bool {
    let v = vertical_start(s);
    &&& s.len() > 0
    &&& (s[0] == 'r' || s[0] == 'l')
    &&& 1 < digit_run(s, 1)
    &&& v < s.len()
    &&& (s[v] == 'u' || s[v] == 'd')
    &&& v + 1 < digit_run(s, v + 1)
    &&& digit_run(s, v + 1) == s.len()
}

/// The coordinate that a command token denotes for an actor at `base`.
///
/// An absolute coordinate `X,Y` denotes the cell (`X`, `Y`). A relative
/// coordinate denotes `base` moved `N` cells right (`r`) or left (`l`) and
/// `M` cells up (`u`) or down (`d`). A token that is neither, or whose
/// numbers or result do not fit a coordinate, denotes nothing.
pub open spec fn spec_parse_coord(s: Seq<char>, base: Coordinate) -> Option<Coordinate> {
    if is_absolute_coord(s) {
        let comma = digit_run(s, 0);
        let x = digits_value(s.subrange(0, comma));
        let y = digits_value(s.subrange(comma + 1, s.len() as int));
        if x <= isize::MAX && y <= isize::MAX {
            Some(Coordinate { x: x as isize, y: y as isize })
        } else {
            None
        }
    } else if is_relative_coord(s) {
        let v = vertical_start(s);
        let n = digits_value(s.subrange(1, digit_run(s, 1)));
        let m = digits_value(s.subrange(v + 1, s.len() as int));
        let dx = if s[0] == 'r' {
            n as int
        } else {
            -(n as int)
        };
        let dy = if s[v] == 'u' {
            m as int
        } else {
            -(m as int)
        };
        if n <= isize::MAX && m <= isize::MAX && isize::MIN <= base.x + dx <= isize::MAX
            && isize::MIN <= base.y + dy <= isize::MAX {
            Some(Coordinate { x: (base.x + dx) as isize, y: (base.y + dy) as isize })
        } else {
            None
        }
    } else {
        None
    }
}

/// Reads the run of digits that starts at `from`: where it ends, and the
/// number it denotes if that number fits a coordinate.
fn scan_digits(input: &str, len: usize, from: usize) -> (r: (usize, Option<isize>))
    requires
        len == input@.len(),
        from <= len,
    ensures
        r.0 == digit_run(input@, from as int),
        from <= r.0 <= len,
        forall|i: int| from <= i < r.0 ==> is_digit(input@[i]),
        r.1.is_some() == (digits_value(input@.subrange(from as int, r.0 as int)) <= isize::MAX),
        r.1 matches Some(v) ==> v == digits_value(input@.subrange(from as int, r.0 as int)),
{
    let mut i: usize = from;
    let mut value: Option<isize> = Some(0);
    assert(input@.subrange(from as int, from as int).len() == 0);
    while i < len && is_digit_char(input.get_char(i))
        invariant
            len == input@.len(),
            from <= i <= len,
            digit_run(input@, i as int) == digit_run(input@, from as int),
            forall|k: int| from <= k < i ==> is_digit(input@[k]),
            value.is_some() == (digits_value(input@.subrange(from as int, i as int))
                <= isize::MAX),
            value matches Some(v) ==> v == digits_value(input@.subrange(from as int, i as int)),
        decreases len - i,
    {
        let c = input.get_char(i);
        let d: isize = (c as u32 - '0' as u32) as isize;
        proof {
            let before = input@.subrange(from as int, i as int);
            let after = input@.subrange(from as int, i + 1);
            assert(after.drop_last() == before);
            assert(after.last() == c);
            assert(digits_value(after) == 10 * digits_value(before) + d);
        }
        value = match value {
            Some(v) => match v.checked_mul(10) {
                Some(t) => t.checked_add(d),
                None => None,
            },
            None => None,
        };
        i += 1;
    }
    (i, value)
}

fn is_digit_char(c: char) -> (r: bool)
    ensures
        r == is_digit(c),
{
    '0' <= c && c <= '9'
}

/// Reads a coordinate off a command token, for an actor at `base_coord`.
pub fn parse_coord(input: &str, base_coord: Coordinate) -> (r: Option<Coordinate>)
    ensures
        r == spec_parse_coord(input@, base_coord),
{
    let len = input.unicode_len();
    if len == 0 {
        return None;
    }
    let first = input.get_char(0);
    if is_digit_char(first) {
        let (comma, x) = scan_digits(input, len, 0);
        if comma >= len || input.get_char(comma) != ',' {
            return None;
        }
        let (end, y) = scan_digits(input, len, comma + 1);
        if end == comma + 1 || end != len {
            return None;
        }
        assert(is_absolute_coord(input@));
        return match (x, y) {
            (Some(x), Some(y)) => Some(Coordinate::new(x, y)),
            _ => None,
        };
    }
    assert(!is_absolute_coord(input@));
    if first != 'r' && first != 'l' {
        return None;
    }
    let (end, n) = scan_digits(input, len, 1);
    if end == 1 || end >= len {
        return None;
    }
    let v: usize = if input.get_char(end) == ',' {
        end + 1
    } else {
        end
    };
    if v >= len {
        return None;
    }
    let vertical = input.get_char(v);
    if vertical != 'u' && vertical != 'd' {
        return None;
    }
    let (last, m) = scan_digits(input, len, v + 1);
    if last == v + 1 || last != len {
        return None;
    }
    assert(is_relative_coord(input@));
    let (n, m) = match (n, m) {
        (Some(n), Some(m)) => (n, m),
        _ => {
            return None;
        },
    };
    let x_off: isize = if first == 'r' {
        n
    } else {
        -n
    };
    let y_off: isize = if vertical == 'u' {
        m
    } else {
        -m
    };
    base_coord.checked_add(Coordinate::new(x_off, y_off))
}

/// A colour of the map display.
#[derive(Clone, Copy, Debug, PartialEq, Eq, Structural)]
pub enum SpanColor {
    /// One of the sixteen indexed terminal colours.
    Indexed(u8),
    LightCyan,
    Black,
}

/// The characters that stand for actors on the map, by actor id.
pub open spec fn spec_actor_chars() -> Seq<char> {
    "abcdefghijklmnopqrstuvwxyz*!"@
}

/// The character that stands for actor `n` on the map.
pub fn actor_char(n: usize) -> (glyph: char)
    ensures
        spec_actor_chars().len() == 28,
        glyph == spec_actor_chars()[(n % 28) as int],
{
    proof {
        reveal_strlit("abcdefghijklmnopqrstuvwxyz*!");
    }
    "abcdefghijklmnopqrstuvwxyz*!".get_char(n % 28)
}

/// How an actor is drawn on the map: the character of its id, in the
/// indexed colour of its team, on light cyan for the first team and on
/// black for the others.
pub fn get_colored_span(n: usize, team: usize) -> (span: (char, SpanColor, SpanColor))
    ensures
        MapCell::Actor(span.0, span.1, span.2) == spec_colored_span(n, team),
{
    let s = actor_char(n);
    let team_u8: u8 = (team % 16) as u8;
    let color = SpanColor::Indexed(team_u8);
    let bg = if team_u8 < 1 {
        SpanColor::LightCyan
    } else {
        SpanColor::Black
    };
    (s, color, bg)
}

/// The character that stands for a kind of terrain on the map.
pub fn terrain_char(terrain_type: TerrainType) -> (glyph: char)
    ensures
        glyph == spec_terrain_char(terrain_type),
{
    match terrain_type {
        TerrainType::Empty => ' ',
        TerrainType::Floor => '\u{2591}',
        TerrainType::Wall => '\u{2588}',
    }
}

/// What the map shows of one cell.
#[derive(Clone, Copy, Debug, PartialEq, Eq, Structural)]
pub enum MapCell {
    /// An actor: its character, in its colour, on its background.
    Actor(char, SpanColor, SpanColor),
    /// Bare terrain: its character.
    Terrain(char),
}

/// How actor `n` of team `team` is drawn on the map.
pub open spec fn spec_colored_span(n: usize, team: usize) -> MapCell {
    MapCell::Actor(
        spec_actor_chars()[(n % 28) as int],
        SpanColor::Indexed((team % 16) as u8),
        if team % 16 < 1 {
            SpanColor::LightCyan
        } else {
            SpanColor::Black
        },
    )
}

/// The character that stands for a kind of terrain on the map.
pub open spec fn spec_terrain_char(terrain_type: TerrainType) -> char {
    match terrain_type {
        TerrainType::Empty => ' ',
        TerrainType::Floor => '\u{2591}',
        TerrainType::Wall => '\u{2588}',
    }
}

/// The decimal notation of a signed number: a minus sign before the
/// digits of a negative one.
pub open spec fn spec_signed_decimal(n: int) -> Seq<char> {
    if n < 0 {
        seq!['-'] + spec_decimal((-n) as nat)
    } else {
        spec_decimal(n as nat)
    }
}

/// The notation of a coordinate: `(x, y)`.
pub open spec fn spec_coord_text(c: Coordinate) -> Seq<char> {
    seq!['('] + spec_signed_decimal(c.x as int) + seq![',', ' '] + spec_signed_decimal(c.y as int)
        + seq![')']
}

/// The coordinate in the notation `(x, y)`.
pub(crate) fn format_coord(c: Coordinate) -> (s: String)
    ensures
        s@ == spec_coord_text(c),
{
    proof {
        reveal_strlit("(");
        reveal_strlit(", ");
        reveal_strlit(")");
    }
    let s = String::from_str("(").concat(signed_decimal_text(c.x).as_str()).concat(", ").concat(
        signed_decimal_text(c.y).as_str(),
    ).concat(")");
    assert(s@ =~= spec_coord_text(c));
    s
}

} // verus!
