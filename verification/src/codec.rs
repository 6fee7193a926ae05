//! Level geometry codec: a level stores only one half of its wall layout,
//! and the full, left-right symmetric layout is reconstructed from it.

use vstd::prelude::*;

verus! {

/// Bit `i` of a byte, `i < 8`.
pub open spec fn u8_bit(b: u8, i: u8) -> bool {
    (b >> i) & 1 == 1
}

/// Bit `i` of a 16-bit word, `i < 16`.
pub open spec fn u16_bit(w: u16, i: u16) -> bool {
    (w >> i) & 1 == 1
}

/// The byte `x` with its bit order reversed: bit `i` of the result is
/// bit `7 - i` of `x`.
pub open spec fn rev8(x: u8) -> u8 {
    ((x & 0x01) << 7) | ((x & 0x02) << 5) | ((x & 0x04) << 3) | ((x & 0x08) << 1)
        | ((x & 0x10) >> 1) | ((x & 0x20) >> 3) | ((x & 0x40) >> 5) | ((x & 0x80) >> 7)
}

/// `rev8` really reverses the bit order.
pub proof fn lemma_rev8_bits(x: u8)
    ensures
        forall|i: u8| i < 8 ==> #[trigger] u8_bit(rev8(x), i) == u8_bit(x, (7 - i) as u8),
{
    assert(forall|i: u8| i < 8 ==>
        ((((x & 0x01) << 7) | ((x & 0x02) << 5) | ((x & 0x04) << 3) | ((x & 0x08) << 1)
            | ((x & 0x10) >> 1) | ((x & 0x20) >> 3) | ((x & 0x40) >> 5) | ((x & 0x80) >> 7))
            >> i) & 1
        == (x >> ((7 - i) as u8)) & 1) by (bit_vector);
}

/// Reverses the bit order of a byte.
pub fn reverse_bits(x: u8) -> (r: u8)
    ensures
        r == rev8(x),
        forall|i: u8| i < 8 ==> #[trigger] u8_bit(r, i) == u8_bit(x, (7 - i) as u8),
{
    let r = ((x & 0x01) << 7) | ((x & 0x02) << 5) | ((x & 0x04) << 3) | ((x & 0x08) << 1)
        | ((x & 0x10) >> 1) | ((x & 0x20) >> 3) | ((x & 0x40) >> 5) | ((x & 0x80) >> 7);
    proof {
        lemma_rev8_bits(x);
        assert forall|i: u8| i < 8 implies #[trigger] u8_bit(r, i) == u8_bit(x, (7 - i) as u8) by {
            assert(u8_bit(rev8(x), i) == u8_bit(x, (7 - i) as u8));
        }
    }
    r
}

/// A row's full vertical-wall mask reconstructed from its left half `x`
/// (low 6 bits meaningful): the half itself in the low bits, and its
/// mirror image, bit-reversed and realigned, in the high bits.
pub open spec fn mirror_v_one(x: u8) -> u16 {
    ((((rev8(x) >> 2) as u16) << 5) | (x as u16))
}

/// Full vertical-wall masks for a sequence of half-rows.
pub open spec fn mirror_v_spec(s: Seq<u8>) -> Seq<u16> {
    Seq::new(s.len(), |i: int| mirror_v_one(s[i]))
}

/// A palindromic sequence of length `2n - 1` built from its first half `s`
/// of length `n`: index `i` maps to `s[i]` for `i < n`, and to
/// `s[2n - i - 2]` beyond, so the center element is shared, not duplicated.
pub open spec fn mirror_h_spec(s: Seq<u8>) -> Seq<u8> {
    Seq::new((2 * s.len() - 1) as nat, |i: int| if i < s.len() { s[i] } else { s[2 * s.len() - i - 2] })
}

/// Expands half-row vertical-wall masks into full, mirrored row masks.
pub fn mirror_v(walls: &Vec<u8>) -> (r: Vec<u16>)
    ensures
        r@ == mirror_v_spec(walls@),
{
    let mut r: Vec<u16> = Vec::new();
    let mut i: usize = 0;
    while i < walls.len()
        invariant
            i <= walls.len(),
            r@ == mirror_v_spec(walls@).take(i as int),
        decreases walls.len() - i,
    {
        let x = walls[i];
        let y = reverse_bits(x) >> 2;
        r.push(((y as u16) << 5) | (x as u16));
        proof {
            assert(r@ =~= mirror_v_spec(walls@).take(i + 1));
        }
        i += 1;
    }
    proof {
        assert(mirror_v_spec(walls@).take(walls@.len() as int) =~= mirror_v_spec(walls@));
    }
    r
}

/// Expands the first half of a palindromic column sequence into the whole:
/// `n` input bytes give `2n - 1` output bytes, mirrored about the center.
pub fn mirror_h(walls: &Vec<u8>) -> (r: Vec<u8>)
    requires
        walls.len() >= 1,
        walls.len() <= usize::MAX / 2,
    ensures
        r@ == mirror_h_spec(walls@),
{
    let n = walls.len();
    let total = 2 * n - 1;
    let mut r: Vec<u8> = Vec::new();
    let mut i: usize = 0;
    while i < total
        invariant
            n == walls.len(),
            1 <= n,
            total == 2 * n - 1,
            total < usize::MAX,
            i <= total,
            r@ == mirror_h_spec(walls@).take(i as int),
        decreases total - i,
    {
        let j = if i < n { i } else { 2 * n - (i + 2) };
        r.push(walls[j]);
        proof {
            assert(r@ =~= mirror_h_spec(walls@).take(i + 1));
        }
        i += 1;
    }
    proof {
        assert(mirror_h_spec(walls@).take(total as int) =~= mirror_h_spec(walls@));
    }
    r
}

/// Compact wall layout as stored in constant level data: only the left half
/// of each axis. Vertical walls: one byte per row (low 6 bits meaningful).
/// Horizontal walls: one byte per column for the first 6 of the 11 columns
/// (`(LEVEL_WIDTH + 1) / 2`), the center column included.
#[derive(Clone, Copy)]
pub struct WallsData {
    pub vertical_walls: [u8; 6],
    pub horizontal_walls: [u8; 6],
}

/// Fully expanded, symmetric wall layout of one level: a full vertical-wall
/// mask per row and a horizontal-wall mask per column.
#[derive(Clone, Copy)]
pub struct Walls {
    pub vertical_walls: [u16; 6],
    pub horizontal_walls: [u8; 11],
}

/// `w` is the expanded layout that the compact `d` encodes.
pub open spec fn walls_match_data(w: Walls, d: WallsData) -> bool {
    &&& w.vertical_walls@ == mirror_v_spec(d.vertical_walls@)
    &&& w.horizontal_walls@ == mirror_h_spec(d.horizontal_walls@)
}

impl Walls {
    /// Derives the full layout from its compact encoding, once per level.
    pub fn from_data(d: &WallsData) -> (r: Walls)
        ensures
            walls_match_data(r, *d),
    {
        let mut vh: Vec<u8> = Vec::new();
        let mut i: usize = 0;
        while i < 6
            invariant
                i <= 6,
                vh@ == d.vertical_walls@.take(i as int),
            decreases 6 - i,
        {
            vh.push(d.vertical_walls[i]);
            proof {
                assert(vh@ =~= d.vertical_walls@.take(i + 1));
            }
            i += 1;
        }
        proof {
            assert(vh@ =~= d.vertical_walls@);
        }
        let mut hh: Vec<u8> = Vec::new();
        let mut j: usize = 0;
        while j < 6
            invariant
                j <= 6,
                hh@ == d.horizontal_walls@.take(j as int),
            decreases 6 - j,
        {
            hh.push(d.horizontal_walls[j]);
            proof {
                assert(hh@ =~= d.horizontal_walls@.take(j + 1));
            }
            j += 1;
        }
        proof {
            assert(hh@ =~= d.horizontal_walls@);
        }
        let v = mirror_v(&vh);
        let h = mirror_h(&hh);
        let vertical_walls: [u16; 6] = [v[0], v[1], v[2], v[3], v[4], v[5]];
        let horizontal_walls: [u8; 11] = [
            h[0], h[1], h[2], h[3], h[4], h[5], h[6], h[7], h[8], h[9], h[10],
        ];
        proof {
            assert(vertical_walls@ =~= mirror_v_spec(d.vertical_walls@));
            assert(horizontal_walls@ =~= mirror_h_spec(d.horizontal_walls@));
        }
        Walls { vertical_walls, horizontal_walls }
    }
}

/// A reconstructed vertical-wall mask carries the original half in its low
/// 6 bits and the bit-reversed, realigned half above them, so the 11
/// meaningful bits read the same from either end, and nothing is set above
/// them.
pub proof fn lemma_mirror_v_symmetric(x: u8)
    requires
        x < 64,
    ensures
        mirror_v_one(x) & 0x3f == x as u16,
        mirror_v_one(x) >> 5 == (rev8(x) >> 2) as u16,
        forall|j: u16| j <= 10 ==> #[trigger] u16_bit(mirror_v_one(x), j)
            == u16_bit(mirror_v_one(x), (10 - j) as u16),
        forall|j: u16| 11 <= j < 16 ==> !#[trigger] u16_bit(mirror_v_one(x), j),
{
    assert(x < 64 ==> mirror_v_one(x) & 0x3f == x as u16) by (bit_vector)
        requires
            x < 64,
    ;
    assert(mirror_v_one(x) >> 5 == (rev8(x) >> 2) as u16) by (bit_vector)
        requires
            x < 64,
    ;
    assert(forall|j: u16| j <= 10 ==> #[trigger] u16_bit(mirror_v_one(x), j)
        == u16_bit(mirror_v_one(x), (10 - j) as u16)) by (bit_vector)
        requires
            x < 64,
    ;
    assert(forall|j: u16| 11 <= j < 16 ==> !#[trigger] u16_bit(mirror_v_one(x), j)) by (bit_vector)
        requires
            x < 64,
    ;
}

/// The expanded horizontal-wall sequence is a palindrome of length
/// `2n - 1`: it reads the same from either end, with the center element
/// shared by both halves.
pub proof fn lemma_mirror_h_palindrome(s: Seq<u8>)
    requires
        s.len() >= 1,
    ensures
        mirror_h_spec(s).len() == 2 * s.len() - 1,
        forall|i: int| 0 <= i < 2 * s.len() - 1 ==> #[trigger] mirror_h_spec(s)[i]
            == mirror_h_spec(s)[2 * s.len() - 2 - i],
{
}

} // verus!
