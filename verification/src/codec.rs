//! The wire format: a fixed binary encoding of the two message enums. Each
//! message is a leading discriminant byte followed by its fields in
//! declaration order; integers are little-endian and fixed-width,
//! variable-length data is length-prefixed. Decoding never panics: malformed
//! or truncated bytes are rejected with a `DecodeError`.
use vstd::prelude::*;
use crate::level::{CurrentLevelIndex, Level};
use crate::player::Direction;
use crate::messages::{
    CharacterType, ClientMessage, FullGameState, GameStates, ServerMessage, ServerMessageV,
    WorldPos,
};

verus! {

/// A malformed or truncated byte sequence was rejected; the message is
/// dropped and the connection stays open.
#[derive(Clone, Copy, Debug, PartialEq, Eq, Structural)]
pub struct DecodeError;

pub open spec fn pow256(n: nat) -> nat
    decreases n,
{
    if n == 0 {
        1
    } else {
        256 * pow256((n - 1) as nat)
    }
}

/// The `n` little-endian bytes of `x`.
pub open spec fn le_bytes(x: nat, n: nat) -> Seq<u8>
    decreases n,
{
    if n == 0 {
        Seq::empty()
    } else {
        seq![(x % 256) as u8] + le_bytes(x / 256, (n - 1) as nat)
    }
}

/// The number a little-endian byte sequence denotes.
pub open spec fn from_le(s: Seq<u8>) -> nat
    decreases s.len(),
{
    if s.len() == 0 {
        0nat
    } else {
        (s[0] + 256 * from_le(s.drop_first())) as nat
    }
}

pub proof fn lemma_le_bytes_len(x: nat, n: nat)
    ensures
        le_bytes(x, n).len() == n,
    decreases n,
{
    if n > 0 {
        lemma_le_bytes_len(x / 256, (n - 1) as nat);
    }
}

/// Reading back the little-endian bytes of `x` yields `x`.
pub proof fn lemma_le_roundtrip(x: nat, n: nat)
    requires
        x < pow256(n),
    ensures
        from_le(le_bytes(x, n)) == x,
    decreases n,
{
    if n == 0 {
        assert(x == 0);
    } else {
        let rest = le_bytes(x / 256, (n - 1) as nat);
        lemma_le_bytes_len(x / 256, (n - 1) as nat);
        assert(x / 256 < pow256((n - 1) as nat)) by (nonlinear_arith)
            requires
                x < 256 * pow256((n - 1) as nat),
        ;
        lemma_le_roundtrip(x / 256, (n - 1) as nat);
        let s = le_bytes(x, n);
        assert(s.drop_first() =~= rest);
        assert(s[0] == (x % 256) as u8);
        assert(from_le(s) == x % 256 + 256 * (x / 256));
    }
}

pub open spec fn enc_u32(x: u32) -> Seq<u8> {
    le_bytes(x as nat, 4)
}

pub open spec fn enc_u64(x: u64) -> Seq<u8> {
    le_bytes(x as nat, 8)
}

pub open spec fn enc_usize(x: usize) -> Seq<u8> {
    enc_u64(x as u64)
}

pub open spec fn enc_bool(b: bool) -> Seq<u8> {
    seq![
        if b {
            1u8
        } else {
            0u8
        },
    ]
}

pub open spec fn enc_char(c: char) -> Seq<u8> {
    enc_u32(c as u32)
}

/// A code point that is a Unicode scalar value, hence a valid `char`.
pub open spec fn is_scalar_value(v: u32) -> bool {
    v < 0xD800 || (0xE000 <= v && v <= 0x10FFFF)
}

pub open spec fn rd_u8(s: Seq<u8>, i: int) -> Option<(u8, int)> {
    if 0 <= i && i + 1 <= s.len() {
        Some((s[i], i + 1))
    } else {
        None
    }
}

pub open spec fn rd_u32(s: Seq<u8>, i: int) -> Option<(u32, int)> {
    if 0 <= i && i + 4 <= s.len() {
        Some((from_le(s.subrange(i, i + 4)) as u32, i + 4))
    } else {
        None
    }
}

pub open spec fn rd_u64(s: Seq<u8>, i: int) -> Option<(u64, int)> {
    if 0 <= i && i + 8 <= s.len() {
        Some((from_le(s.subrange(i, i + 8)) as u64, i + 8))
    } else {
        None
    }
}

pub open spec fn rd_usize(s: Seq<u8>, i: int) -> Option<(usize, int)> {
    match rd_u64(s, i) {
        Some((v, j)) => if v <= usize::MAX as u64 {
            Some((v as usize, j))
        } else {
            None
        },
        None => None,
    }
}

pub open spec fn rd_bool(s: Seq<u8>, i: int) -> Option<(bool, int)> {
    match rd_u8(s, i) {
        Some((v, j)) => if v == 0 {
            Some((false, j))
        } else if v == 1 {
            Some((true, j))
        } else {
            None
        },
        None => None,
    }
}

pub open spec fn rd_char(s: Seq<u8>, i: int) -> Option<(char, int)> {
    match rd_u32(s, i) {
        Some((v, j)) => if is_scalar_value(v) {
            Some((v as char, j))
        } else {
            None
        },
        None => None,
    }
}

/// The exec reader `r` returns exactly what the spec reader says.
pub open spec fn matches_read<T>(spec_r: Option<(T, int)>, r: Option<(T, usize)>) -> bool {
    match r {
        Some(p) => spec_r == Some((p.0, p.1 as int)),
        None => spec_r is None,
    }
}

fn read_u8(b: &[u8], i: usize) -> (r: Option<(u8, usize)>)
    ensures
        matches_read(rd_u8(b@, i as int), r),
{
    if i < b.len() {
        Some((b[i], i + 1))
    } else {
        None
    }
}

/// Unfolds `from_le` on a four-byte sequence.
proof fn lemma_from_le_4(s: Seq<u8>)
    requires
        s.len() == 4,
    ensures
        from_le(s) == s[0] + 256 * (s[1] + 256 * (s[2] + 256 * (s[3] + 256 * 0))),
{
    let s1 = s.drop_first();
    let s2 = s1.drop_first();
    let s3 = s2.drop_first();
    let s4 = s3.drop_first();
    assert(s4.len() == 0);
    assert(s1[0] == s[1] && s2[0] == s[2] && s3[0] == s[3]);
    assert(from_le(s3) == s[3] + 256 * from_le(s4));
    assert(from_le(s2) == s[2] + 256 * from_le(s3));
    assert(from_le(s1) == s[1] + 256 * from_le(s2));
}

/// Unfolds `from_le` on an eight-byte sequence.
proof fn lemma_from_le_8(s: Seq<u8>)
    requires
        s.len() == 8,
    ensures
        from_le(s) == s[0] + 256 * (s[1] + 256 * (s[2] + 256 * (s[3] + 256 * (s[4] + 256 * (s[5]
            + 256 * (s[6] + 256 * (s[7] + 256 * 0))))))),
{
    let s1 = s.drop_first();
    let s2 = s1.drop_first();
    let s3 = s2.drop_first();
    let s4 = s3.drop_first();
    let s5 = s4.drop_first();
    let s6 = s5.drop_first();
    let s7 = s6.drop_first();
    let s8 = s7.drop_first();
    assert(s8.len() == 0);
    assert(s1[0] == s[1] && s2[0] == s[2] && s3[0] == s[3] && s4[0] == s[4] && s5[0] == s[5]
        && s6[0] == s[6] && s7[0] == s[7]);
    assert(from_le(s7) == s[7] + 256 * from_le(s8));
    assert(from_le(s6) == s[6] + 256 * from_le(s7));
    assert(from_le(s5) == s[5] + 256 * from_le(s6));
    assert(from_le(s4) == s[4] + 256 * from_le(s5));
    assert(from_le(s3) == s[3] + 256 * from_le(s4));
    assert(from_le(s2) == s[2] + 256 * from_le(s3));
    assert(from_le(s1) == s[1] + 256 * from_le(s2));
}

fn read_u32(b: &[u8], i: usize) -> (r: Option<(u32, usize)>)
    ensures
        matches_read(rd_u32(b@, i as int), r),
{
    if b.len() >= 4 && i <= b.len() - 4 {
        let v3 = b[i + 3] as u32;
        let v2 = b[i + 2] as u32 + 256 * v3;
        assert(v2 <= 0xFFFF);
        let v1 = b[i + 1] as u32 + 256 * v2;
        assert(v1 <= 0xFF_FFFF);
        let v0 = b[i] as u32 + 256 * v1;
        proof {
            let s = b@.subrange(i as int, i + 4);
            lemma_from_le_4(s);
            assert(s[0] == b@[i as int] && s[1] == b@[i + 1] && s[2] == b@[i + 2] && s[3] == b@[i
                + 3]);
            assert(v0 == from_le(s));
        }
        Some((v0, i + 4))
    } else {
        None
    }
}

fn read_u64(b: &[u8], i: usize) -> (r: Option<(u64, usize)>)
    ensures
        matches_read(rd_u64(b@, i as int), r),
{
    if b.len() >= 8 && i <= b.len() - 8 {
        let v7 = b[i + 7] as u64;
        let v6 = b[i + 6] as u64 + 256 * v7;
        assert(v6 <= 0xFFFF);
        let v5 = b[i + 5] as u64 + 256 * v6;
        assert(v5 <= 0xFF_FFFF);
        let v4 = b[i + 4] as u64 + 256 * v5;
        assert(v4 <= 0xFFFF_FFFF);
        let v3 = b[i + 3] as u64 + 256 * v4;
        assert(v3 <= 0xFF_FFFF_FFFF);
        let v2 = b[i + 2] as u64 + 256 * v3;
        assert(v2 <= 0xFFFF_FFFF_FFFF);
        let v1 = b[i + 1] as u64 + 256 * v2;
        assert(v1 <= 0xFF_FFFF_FFFF_FFFF);
        let v0 = b[i] as u64 + 256 * v1;
        proof {
            let s = b@.subrange(i as int, i + 8);
            lemma_from_le_8(s);
            assert(s[0] == b@[i as int] && s[1] == b@[i + 1] && s[2] == b@[i + 2] && s[3] == b@[i
                + 3] && s[4] == b@[i + 4] && s[5] == b@[i + 5] && s[6] == b@[i + 6] && s[7] == b@[i
                + 7]);
            assert(v0 == from_le(s));
        }
        Some((v0, i + 8))
    } else {
        None
    }
}

fn read_usize(b: &[u8], i: usize) -> (r: Option<(usize, usize)>)
    ensures
        matches_read(rd_usize(b@, i as int), r),
{
    match read_u64(b, i) {
        Some((v, j)) => {
            if v <= usize::MAX as u64 {
                Some((v as usize, j))
            } else {
                None
            }
        },
        None => None,
    }
}

fn read_bool(b: &[u8], i: usize) -> (r: Option<(bool, usize)>)
    ensures
        matches_read(rd_bool(b@, i as int), r),
{
    match read_u8(b, i) {
        Some((v, j)) => {
            if v == 0 {
                Some((false, j))
            } else if v == 1 {
                Some((true, j))
            } else {
                None
            }
        },
        None => None,
    }
}

/// Relies on `char::from_u32`: it returns `Some` exactly for Unicode scalar
/// values (code points outside the surrogate range and at most 0x10FFFF),
/// and the returned character has the given code point.
#[verifier::external_body]
fn char_from_u32(v: u32) -> (r: Option<char>)
    ensures
        r is Some <==> is_scalar_value(v),
        r is Some ==> r->0 as u32 == v,
{
    char::from_u32(v)
}

fn read_char(b: &[u8], i: usize) -> (r: Option<(char, usize)>)
    ensures
        matches_read(rd_char(b@, i as int), r),
{
    match read_u32(b, i) {
        Some((v, j)) => {
            match char_from_u32(v) {
                Some(c) => {
                    proof {
                        vstd::utf8::char_u32_cast(c, v);
                        assert(c == v as char);
                    }
                    Some((c, j))
                },
                None => None,
            }
        },
        None => None,
    }
}

fn push_u8(out: &mut Vec<u8>, x: u8)
    ensures
        final(out)@ == old(out)@ + seq![x],
{
    out.push(x);
    assert(out@ =~= old(out)@ + seq![x]);
}

fn push_u32(out: &mut Vec<u8>, x: u32)
    ensures
        final(out)@ == old(out)@ + enc_u32(x),
{
    let b0 = (x % 256) as u8;
    let x1 = x / 256;
    let b1 = (x1 % 256) as u8;
    let x2 = x1 / 256;
    let b2 = (x2 % 256) as u8;
    let x3 = x2 / 256;
    let b3 = (x3 % 256) as u8;
    out.push(b0);
    out.push(b1);
    out.push(b2);
    out.push(b3);
    proof {
        assert(le_bytes(x3 as nat, 1) =~= seq![b3] + le_bytes((x3 as nat) / 256, 0));
        assert(le_bytes((x3 as nat) / 256, 0) =~= Seq::<u8>::empty());
        assert(le_bytes(x2 as nat, 2) =~= seq![b2] + le_bytes(x3 as nat, 1));
        assert(le_bytes(x1 as nat, 3) =~= seq![b1] + le_bytes(x2 as nat, 2));
        assert(enc_u32(x) =~= seq![b0] + le_bytes(x1 as nat, 3));
        assert(out@ =~= old(out)@ + enc_u32(x));
    }
}

fn push_u64(out: &mut Vec<u8>, x: u64)
    ensures
        final(out)@ == old(out)@ + enc_u64(x),
{
    let b0 = (x % 256) as u8;
    let x1 = x / 256;
    let b1 = (x1 % 256) as u8;
    let x2 = x1 / 256;
    let b2 = (x2 % 256) as u8;
    let x3 = x2 / 256;
    let b3 = (x3 % 256) as u8;
    let x4 = x3 / 256;
    let b4 = (x4 % 256) as u8;
    let x5 = x4 / 256;
    let b5 = (x5 % 256) as u8;
    let x6 = x5 / 256;
    let b6 = (x6 % 256) as u8;
    let x7 = x6 / 256;
    let b7 = (x7 % 256) as u8;
    out.push(b0);
    out.push(b1);
    out.push(b2);
    out.push(b3);
    out.push(b4);
    out.push(b5);
    out.push(b6);
    out.push(b7);
    proof {
        assert(le_bytes(x7 as nat, 1) =~= seq![b7] + le_bytes((x7 as nat) / 256, 0));
        assert(le_bytes((x7 as nat) / 256, 0) =~= Seq::<u8>::empty());
        assert(le_bytes(x6 as nat, 2) =~= seq![b6] + le_bytes(x7 as nat, 1));
        assert(le_bytes(x5 as nat, 3) =~= seq![b5] + le_bytes(x6 as nat, 2));
        assert(le_bytes(x4 as nat, 4) =~= seq![b4] + le_bytes(x5 as nat, 3));
        assert(le_bytes(x3 as nat, 5) =~= seq![b3] + le_bytes(x4 as nat, 4));
        assert(le_bytes(x2 as nat, 6) =~= seq![b2] + le_bytes(x3 as nat, 5));
        assert(le_bytes(x1 as nat, 7) =~= seq![b1] + le_bytes(x2 as nat, 6));
        assert(enc_u64(x) =~= seq![b0] + le_bytes(x1 as nat, 7));
        assert(out@ =~= old(out)@ + enc_u64(x));
    }
}

fn push_usize(out: &mut Vec<u8>, x: usize)
    ensures
        final(out)@ == old(out)@ + enc_usize(x),
{
    push_u64(out, x as u64);
}

fn push_bool(out: &mut Vec<u8>, x: bool)
    ensures
        final(out)@ == old(out)@ + enc_bool(x),
{
    if x {
        push_u8(out, 1);
    } else {
        push_u8(out, 0);
    }
}

fn push_char(out: &mut Vec<u8>, c: char)
    ensures
        final(out)@ == old(out)@ + enc_char(c),
{
    push_u32(out, c as u32);
}

/// Reading four bytes where the little-endian bytes of `x` were written
/// yields `x`.
pub proof fn lemma_rd_u32_at(s: Seq<u8>, i: int, x: u32)
    requires
        0 <= i,
        i + 4 <= s.len(),
        s.subrange(i, i + 4) == enc_u32(x),
    ensures
        rd_u32(s, i) == Some((x, i + 4)),
{
    reveal_with_fuel(pow256, 5);
    assert(pow256(4) == 0x1_0000_0000);
    lemma_le_roundtrip(x as nat, 4);
}

pub proof fn lemma_rd_u64_at(s: Seq<u8>, i: int, x: u64)
    requires
        0 <= i,
        i + 8 <= s.len(),
        s.subrange(i, i + 8) == enc_u64(x),
    ensures
        rd_u64(s, i) == Some((x, i + 8)),
{
    reveal_with_fuel(pow256, 9);
    assert(pow256(8) == 0x1_0000_0000_0000_0000);
    lemma_le_roundtrip(x as nat, 8);
}

pub proof fn lemma_rd_usize_at(s: Seq<u8>, i: int, x: usize)
    requires
        0 <= i,
        i + 8 <= s.len(),
        s.subrange(i, i + 8) == enc_usize(x),
    ensures
        rd_usize(s, i) == Some((x, i + 8)),
{
    lemma_rd_u64_at(s, i, x as u64);
}

pub proof fn lemma_rd_bool_at(s: Seq<u8>, i: int, x: bool)
    requires
        0 <= i,
        i + 1 <= s.len(),
        s.subrange(i, i + 1) == enc_bool(x),
    ensures
        rd_bool(s, i) == Some((x, i + 1)),
{
    assert(s[i] == enc_bool(x)[0]);
}

pub proof fn lemma_rd_char_at(s: Seq<u8>, i: int, c: char)
    requires
        0 <= i,
        i + 4 <= s.len(),
        s.subrange(i, i + 4) == enc_char(c),
    ensures
        rd_char(s, i) == Some((c, i + 4)),
{
    lemma_rd_u32_at(s, i, c as u32);
    vstd::utf8::char_is_scalar(c);
    assert(is_scalar_value(c as u32));
    vstd::utf8::char_u32_cast(c, c as u32);
}

// ---------------------------------------------------------------------------
// Fixed-size composite values
// ---------------------------------------------------------------------------

pub open spec fn enc_direction(d: Direction) -> Seq<u8> {
    match d {
        Direction::Up => seq![0u8],
        Direction::Down => seq![1u8],
        Direction::Left => seq![2u8],
        Direction::Right => seq![3u8],
    }
}

pub open spec fn rd_direction(s: Seq<u8>, i: int) -> Option<(Direction, int)> {
    match rd_u8(s, i) {
        Some((t, j)) => if t == 0 {
            Some((Direction::Up, j))
        } else if t == 1 {
            Some((Direction::Down, j))
        } else if t == 2 {
            Some((Direction::Left, j))
        } else if t == 3 {
            Some((Direction::Right, j))
        } else {
            None
        },
        None => None,
    }
}

pub open spec fn enc_character(c: CharacterType) -> Seq<u8> {
    match c {
        CharacterType::Duck => seq![0u8],
        CharacterType::Cat => seq![1u8],
        CharacterType::Chick => seq![2u8],
        CharacterType::Bunny => seq![3u8],
    }
}

pub open spec fn rd_character(s: Seq<u8>, i: int) -> Option<(CharacterType, int)> {
    match rd_u8(s, i) {
        Some((t, j)) => if t == 0 {
            Some((CharacterType::Duck, j))
        } else if t == 1 {
            Some((CharacterType::Cat, j))
        } else if t == 2 {
            Some((CharacterType::Chick, j))
        } else if t == 3 {
            Some((CharacterType::Bunny, j))
        } else {
            None
        },
        None => None,
    }
}

pub open spec fn enc_game_state(g: GameStates) -> Seq<u8> {
    match g {
        GameStates::Loading => seq![0u8],
        GameStates::GameMenu => seq![1u8],
        GameStates::CharacterSelection => seq![2u8],
        GameStates::Next => seq![3u8],
        GameStates::Celebration => seq![4u8],
    }
}

pub open spec fn rd_game_state(s: Seq<u8>, i: int) -> Option<(GameStates, int)> {
    match rd_u8(s, i) {
        Some((t, j)) => if t == 0 {
            Some((GameStates::Loading, j))
        } else if t == 1 {
            Some((GameStates::GameMenu, j))
        } else if t == 2 {
            Some((GameStates::CharacterSelection, j))
        } else if t == 3 {
            Some((GameStates::Next, j))
        } else if t == 4 {
            Some((GameStates::Celebration, j))
        } else {
            None
        },
        None => None,
    }
}

pub open spec fn enc_opt_character(o: Option<CharacterType>) -> Seq<u8> {
    match o {
        None => seq![0u8],
        Some(c) => seq![1u8] + enc_character(c),
    }
}

pub open spec fn rd_opt_character(s: Seq<u8>, i: int) -> Option<(Option<CharacterType>, int)> {
    match rd_u8(s, i) {
        Some((t, j)) => if t == 0 {
            Some((None, j))
        } else if t == 1 {
            match rd_character(s, j) {
                Some((c, k)) => Some((Some(c), k)),
                None => None,
            }
        } else {
            None
        },
        None => None,
    }
}

pub open spec fn enc_world(w: WorldPos) -> Seq<u8> {
    enc_u32(w.x_bits) + enc_u32(w.y_bits) + enc_u32(w.z_bits)
}

pub open spec fn rd_world(s: Seq<u8>, i: int) -> Option<(WorldPos, int)> {
    match rd_u32(s, i) {
        Some((x, j)) => match rd_u32(s, j) {
            Some((y, k)) => match rd_u32(s, k) {
                Some((z, l)) => Some((WorldPos { x_bits: x, y_bits: y, z_bits: z }, l)),
                None => None,
            },
            None => None,
        },
        None => None,
    }
}

pub open spec fn enc_upair(p: (usize, usize)) -> Seq<u8> {
    enc_usize(p.0) + enc_usize(p.1)
}

pub open spec fn rd_upair(s: Seq<u8>, i: int) -> Option<((usize, usize), int)> {
    match rd_usize(s, i) {
        Some((a, j)) => match rd_usize(s, j) {
            Some((b, k)) => Some(((a, b), k)),
            None => None,
        },
        None => None,
    }
}

pub open spec fn enc_index(ix: CurrentLevelIndex) -> Seq<u8> {
    enc_usize(ix.0)
}

pub open spec fn rd_index(s: Seq<u8>, i: int) -> Option<(CurrentLevelIndex, int)> {
    match rd_usize(s, i) {
        Some((v, j)) => Some((CurrentLevelIndex(v), j)),
        None => None,
    }
}

pub open spec fn enc_full_state(f: FullGameState) -> Seq<u8> {
    enc_game_state(f.current_state) + enc_world(f.player1_position) + enc_world(f.player2_position)
        + enc_character(f.player1_character) + enc_character(f.player2_character) + enc_upair(
        f.player1_logic_pos,
    ) + enc_upair(f.player2_logic_pos) + enc_u32(f.player1_bread) + enc_u32(f.player2_bread)
        + enc_bool(f.player1_can_move) + enc_bool(f.player2_can_move) + enc_index(f.current_level)
}

pub open spec fn rd_full_state(s: Seq<u8>, i: int) -> Option<(FullGameState, int)> {
    match rd_game_state(s, i) {
        Some((current_state, i1)) => match rd_world(s, i1) {
            Some((p1_pos, i2)) => match rd_world(s, i2) {
                Some((p2_pos, i3)) => match rd_character(s, i3) {
                    Some((p1_char, i4)) => match rd_character(s, i4) {
                        Some((p2_char, i5)) => match rd_upair(s, i5) {
                            Some((p1_logic, i6)) => match rd_upair(s, i6) {
                                Some((p2_logic, i7)) => match rd_u32(s, i7) {
                                    Some((p1_bread, i8)) => match rd_u32(s, i8) {
                                        Some((p2_bread, i9)) => match rd_bool(s, i9) {
                                            Some((p1_move, i10)) => match rd_bool(s, i10) {
                                                Some((p2_move, i11)) => match rd_index(s, i11) {
                                                    Some((level, i12)) => Some(
                                                        (
                                                            FullGameState {
                                                                current_state,
                                                                player1_position: p1_pos,
                                                                player2_position: p2_pos,
                                                                player1_character: p1_char,
                                                                player2_character: p2_char,
                                                                player1_logic_pos: p1_logic,
                                                                player2_logic_pos: p2_logic,
                                                                player1_bread: p1_bread,
                                                                player2_bread: p2_bread,
                                                                player1_can_move: p1_move,
                                                                player2_can_move: p2_move,
                                                                current_level: level,
                                                            },
                                                            i12,
                                                        ),
                                                    ),
                                                    None => None,
                                                },
                                                None => None,
                                            },
                                            None => None,
                                        },
                                        None => None,
                                    },
                                    None => None,
                                },
                                None => None,
                            },
                            None => None,
                        },
                        None => None,
                    },
                    None => None,
                },
                None => None,
            },
            None => None,
        },
        None => None,
    }
}

fn push_direction(out: &mut Vec<u8>, d: Direction)
    ensures
        final(out)@ == old(out)@ + enc_direction(d),
{
    match d {
        Direction::Up => push_u8(out, 0),
        Direction::Down => push_u8(out, 1),
        Direction::Left => push_u8(out, 2),
        Direction::Right => push_u8(out, 3),
    }
}

fn read_direction(b: &[u8], i: usize) -> (r: Option<(Direction, usize)>)
    ensures
        matches_read(rd_direction(b@, i as int), r),
{
    match read_u8(b, i) {
        Some((t, j)) => {
            if t == 0 {
                Some((Direction::Up, j))
            } else if t == 1 {
                Some((Direction::Down, j))
            } else if t == 2 {
                Some((Direction::Left, j))
            } else if t == 3 {
                Some((Direction::Right, j))
            } else {
                None
            }
        },
        None => None,
    }
}

fn push_character(out: &mut Vec<u8>, c: CharacterType)
    ensures
        final(out)@ == old(out)@ + enc_character(c),
{
    match c {
        CharacterType::Duck => push_u8(out, 0),
        CharacterType::Cat => push_u8(out, 1),
        CharacterType::Chick => push_u8(out, 2),
        CharacterType::Bunny => push_u8(out, 3),
    }
}

fn read_character(b: &[u8], i: usize) -> (r: Option<(CharacterType, usize)>)
    ensures
        matches_read(rd_character(b@, i as int), r),
{
    match read_u8(b, i) {
        Some((t, j)) => {
            if t == 0 {
                Some((CharacterType::Duck, j))
            } else if t == 1 {
                Some((CharacterType::Cat, j))
            } else if t == 2 {
                Some((CharacterType::Chick, j))
            } else if t == 3 {
                Some((CharacterType::Bunny, j))
            } else {
                None
            }
        },
        None => None,
    }
}

fn push_game_state(out: &mut Vec<u8>, g: GameStates)
    ensures
        final(out)@ == old(out)@ + enc_game_state(g),
{
    match g {
        GameStates::Loading => push_u8(out, 0),
        GameStates::GameMenu => push_u8(out, 1),
        GameStates::CharacterSelection => push_u8(out, 2),
        GameStates::Next => push_u8(out, 3),
        GameStates::Celebration => push_u8(out, 4),
    }
}

fn read_game_state(b: &[u8], i: usize) -> (r: Option<(GameStates, usize)>)
    ensures
        matches_read(rd_game_state(b@, i as int), r),
{
    match read_u8(b, i) {
        Some((t, j)) => {
            if t == 0 {
                Some((GameStates::Loading, j))
            } else if t == 1 {
                Some((GameStates::GameMenu, j))
            } else if t == 2 {
                Some((GameStates::CharacterSelection, j))
            } else if t == 3 {
                Some((GameStates::Next, j))
            } else if t == 4 {
                Some((GameStates::Celebration, j))
            } else {
                None
            }
        },
        None => None,
    }
}

fn push_opt_character(out: &mut Vec<u8>, o: Option<CharacterType>)
    ensures
        final(out)@ == old(out)@ + enc_opt_character(o),
{
    match o {
        None => push_u8(out, 0),
        Some(c) => {
            push_u8(out, 1);
            push_character(out, c);
            assert(out@ =~= old(out)@ + enc_opt_character(o));
        },
    }
}

fn read_opt_character(b: &[u8], i: usize) -> (r: Option<(Option<CharacterType>, usize)>)
    ensures
        matches_read(rd_opt_character(b@, i as int), r),
{
    match read_u8(b, i) {
        Some((t, j)) => {
            if t == 0 {
                Some((None, j))
            } else if t == 1 {
                match read_character(b, j) {
                    Some((c, k)) => Some((Some(c), k)),
                    None => None,
                }
            } else {
                None
            }
        },
        None => None,
    }
}

fn push_world(out: &mut Vec<u8>, w: WorldPos)
    ensures
        final(out)@ == old(out)@ + enc_world(w),
{
    push_u32(out, w.x_bits);
    push_u32(out, w.y_bits);
    push_u32(out, w.z_bits);
    assert(out@ =~= old(out)@ + enc_world(w));
}

fn read_world(b: &[u8], i: usize) -> (r: Option<(WorldPos, usize)>)
    ensures
        matches_read(rd_world(b@, i as int), r),
{
    match read_u32(b, i) {
        Some((x, j)) => match read_u32(b, j) {
            Some((y, k)) => match read_u32(b, k) {
                Some((z, l)) => Some((WorldPos { x_bits: x, y_bits: y, z_bits: z }, l)),
                None => None,
            },
            None => None,
        },
        None => None,
    }
}

fn push_upair(out: &mut Vec<u8>, p: (usize, usize))
    ensures
        final(out)@ == old(out)@ + enc_upair(p),
{
    push_usize(out, p.0);
    push_usize(out, p.1);
    assert(out@ =~= old(out)@ + enc_upair(p));
}

fn read_upair(b: &[u8], i: usize) -> (r: Option<((usize, usize), usize)>)
    ensures
        matches_read(rd_upair(b@, i as int), r),
{
    match read_usize(b, i) {
        Some((a, j)) => match read_usize(b, j) {
            Some((c, k)) => Some(((a, c), k)),
            None => None,
        },
        None => None,
    }
}

fn push_index(out: &mut Vec<u8>, ix: CurrentLevelIndex)
    ensures
        final(out)@ == old(out)@ + enc_index(ix),
{
    push_usize(out, ix.0);
}

fn read_index(b: &[u8], i: usize) -> (r: Option<(CurrentLevelIndex, usize)>)
    ensures
        matches_read(rd_index(b@, i as int), r),
{
    match read_usize(b, i) {
        Some((v, j)) => Some((CurrentLevelIndex(v), j)),
        None => None,
    }
}

#[verifier::rlimit(100)]
fn push_full_state(out: &mut Vec<u8>, f: &FullGameState)
    ensures
        final(out)@ == old(out)@ + enc_full_state(*f),
{
    push_game_state(out, f.current_state);
    push_world(out, f.player1_position);
    push_world(out, f.player2_position);
    push_character(out, f.player1_character);
    push_character(out, f.player2_character);
    push_upair(out, f.player1_logic_pos);
    push_upair(out, f.player2_logic_pos);
    push_u32(out, f.player1_bread);
    push_u32(out, f.player2_bread);
    push_bool(out, f.player1_can_move);
    push_bool(out, f.player2_can_move);
    push_index(out, f.current_level);
    assert(out@ =~= old(out)@ + enc_full_state(*f));
}

fn read_full_state(b: &[u8], i: usize) -> (r: Option<(FullGameState, usize)>)
    ensures
        matches_read(rd_full_state(b@, i as int), r),
{
    let r0 = read_game_state(b, i);
    if r0.is_none() {
        return None;
    }
    let (current_state, i1) = r0.unwrap();
    let r1 = read_world(b, i1);
    if r1.is_none() {
        return None;
    }
    let (p1_pos, i2) = r1.unwrap();
    let r2 = read_world(b, i2);
    if r2.is_none() {
        return None;
    }
    let (p2_pos, i3) = r2.unwrap();
    let r3 = read_character(b, i3);
    if r3.is_none() {
        return None;
    }
    let (p1_char, i4) = r3.unwrap();
    let r4 = read_character(b, i4);
    if r4.is_none() {
        return None;
    }
    let (p2_char, i5) = r4.unwrap();
    let r5 = read_upair(b, i5);
    if r5.is_none() {
        return None;
    }
    let (p1_logic, i6) = r5.unwrap();
    let r6 = read_upair(b, i6);
    if r6.is_none() {
        return None;
    }
    let (p2_logic, i7) = r6.unwrap();
    let r7 = read_u32(b, i7);
    if r7.is_none() {
        return None;
    }
    let (p1_bread, i8) = r7.unwrap();
    let r8 = read_u32(b, i8);
    if r8.is_none() {
        return None;
    }
    let (p2_bread, i9) = r8.unwrap();
    let r9 = read_bool(b, i9);
    if r9.is_none() {
        return None;
    }
    let (p1_move, i10) = r9.unwrap();
    let r10 = read_bool(b, i10);
    if r10.is_none() {
        return None;
    }
    let (p2_move, i11) = r10.unwrap();
    let r11 = read_index(b, i11);
    if r11.is_none() {
        return None;
    }
    let (level, i12) = r11.unwrap();
    Some(
        (
            FullGameState {
                current_state,
                player1_position: p1_pos,
                player2_position: p2_pos,
                player1_character: p1_char,
                player2_character: p2_char,
                player1_logic_pos: p1_logic,
                player2_logic_pos: p2_logic,
                player1_bread: p1_bread,
                player2_bread: p2_bread,
                player1_can_move: p1_move,
                player2_can_move: p2_move,
                current_level: level,
            },
            i12,
        ),
    )
}

pub proof fn lemma_enc_u32_len(x: u32)
    ensures
        enc_u32(x).len() == 4,
{
    lemma_le_bytes_len(x as nat, 4);
}

pub proof fn lemma_enc_u64_len(x: u64)
    ensures
        enc_u64(x).len() == 8,
{
    lemma_le_bytes_len(x as nat, 8);
}

pub proof fn lemma_enc_usize_len(x: usize)
    ensures
        enc_usize(x).len() == 8,
{
    lemma_enc_u64_len(x as u64);
}

pub proof fn lemma_enc_world_len(w: WorldPos)
    ensures
        enc_world(w).len() == 12,
{
    lemma_enc_u32_len(w.x_bits);
    lemma_enc_u32_len(w.y_bits);
    lemma_enc_u32_len(w.z_bits);
}

pub proof fn lemma_enc_upair_len(p: (usize, usize))
    ensures
        enc_upair(p).len() == 16,
{
    lemma_enc_usize_len(p.0);
    lemma_enc_usize_len(p.1);
}

pub proof fn lemma_enc_full_len(f: FullGameState)
    ensures
        enc_full_state(f).len() == 77,
{
    lemma_enc_world_len(f.player1_position);
    lemma_enc_world_len(f.player2_position);
    lemma_enc_upair_len(f.player1_logic_pos);
    lemma_enc_upair_len(f.player2_logic_pos);
    lemma_enc_u32_len(f.player1_bread);
    lemma_enc_u32_len(f.player2_bread);
    lemma_enc_usize_len(f.current_level.0);
}


/// Inside a region of `s` known to equal `whole`, any sub-slice of the
/// region equals the matching sub-slice of `whole`.
pub proof fn lemma_subrange_of_eq(s: Seq<u8>, i: int, whole: Seq<u8>, lo: int, hi: int)
    requires
        0 <= i,
        i + whole.len() <= s.len(),
        s.subrange(i, i + whole.len()) == whole,
        0 <= lo <= hi <= whole.len(),
    ensures
        s.subrange(i + lo, i + hi) == whole.subrange(lo, hi),
{
    assert forall|k: int| 0 <= k < hi - lo implies s.subrange(i + lo, i + hi)[k] == whole.subrange(
        lo,
        hi,
    )[k] by {
        assert(whole[lo + k] == s.subrange(i, i + whole.len())[lo + k]);
    }
    assert(s.subrange(i + lo, i + hi) =~= whole.subrange(lo, hi));
}

pub proof fn lemma_rd_direction_at(s: Seq<u8>, i: int, d: Direction)
    requires
        0 <= i,
        i + 1 <= s.len(),
        s.subrange(i, i + 1) == enc_direction(d),
    ensures
        rd_direction(s, i) == Some((d, i + 1)),
{
    assert(s[i] == enc_direction(d)[0]);
}

pub proof fn lemma_rd_character_at(s: Seq<u8>, i: int, c: CharacterType)
    requires
        0 <= i,
        i + 1 <= s.len(),
        s.subrange(i, i + 1) == enc_character(c),
    ensures
        rd_character(s, i) == Some((c, i + 1)),
{
    assert(s[i] == enc_character(c)[0]);
}

pub proof fn lemma_rd_game_state_at(s: Seq<u8>, i: int, g: GameStates)
    requires
        0 <= i,
        i + 1 <= s.len(),
        s.subrange(i, i + 1) == enc_game_state(g),
    ensures
        rd_game_state(s, i) == Some((g, i + 1)),
{
    assert(s[i] == enc_game_state(g)[0]);
}

pub proof fn lemma_rd_opt_character_at(s: Seq<u8>, i: int, o: Option<CharacterType>)
    requires
        0 <= i,
        i + enc_opt_character(o).len() <= s.len(),
        s.subrange(i, i + enc_opt_character(o).len()) == enc_opt_character(o),
    ensures
        rd_opt_character(s, i) == Some((o, i + enc_opt_character(o).len())),
{
    match o {
        None => {
            assert(s[i] == enc_opt_character(o)[0]);
        },
        Some(c) => {
            assert(s[i] == enc_opt_character(o)[0]);
            lemma_subrange_of_eq(s, i, enc_opt_character(o), 1, 2);
            assert(enc_opt_character(o).subrange(1, 2) =~= enc_character(c));
            lemma_rd_character_at(s, i + 1, c);
        },
    }
}

pub proof fn lemma_rd_world_at(s: Seq<u8>, i: int, w: WorldPos)
    requires
        0 <= i,
        i + 12 <= s.len(),
        s.subrange(i, i + 12) == enc_world(w),
    ensures
        rd_world(s, i) == Some((w, i + 12)),
{
    lemma_enc_u32_len(w.x_bits);
    lemma_enc_u32_len(w.y_bits);
    lemma_enc_u32_len(w.z_bits);
    let whole = enc_world(w);
    lemma_subrange_of_eq(s, i, whole, 0, 4);
    lemma_subrange_of_eq(s, i, whole, 4, 8);
    lemma_subrange_of_eq(s, i, whole, 8, 12);
    assert(whole.subrange(0, 4) =~= enc_u32(w.x_bits));
    assert(whole.subrange(4, 8) =~= enc_u32(w.y_bits));
    assert(whole.subrange(8, 12) =~= enc_u32(w.z_bits));
    lemma_rd_u32_at(s, i, w.x_bits);
    lemma_rd_u32_at(s, i + 4, w.y_bits);
    lemma_rd_u32_at(s, i + 8, w.z_bits);
}

pub proof fn lemma_rd_upair_at(s: Seq<u8>, i: int, p: (usize, usize))
    requires
        0 <= i,
        i + 16 <= s.len(),
        s.subrange(i, i + 16) == enc_upair(p),
    ensures
        rd_upair(s, i) == Some((p, i + 16)),
{
    lemma_enc_usize_len(p.0);
    lemma_enc_usize_len(p.1);
    let whole = enc_upair(p);
    lemma_subrange_of_eq(s, i, whole, 0, 8);
    lemma_subrange_of_eq(s, i, whole, 8, 16);
    assert(whole.subrange(0, 8) =~= enc_usize(p.0));
    assert(whole.subrange(8, 16) =~= enc_usize(p.1));
    lemma_rd_usize_at(s, i, p.0);
    lemma_rd_usize_at(s, i + 8, p.1);
}

pub proof fn lemma_rd_index_at(s: Seq<u8>, i: int, ix: CurrentLevelIndex)
    requires
        0 <= i,
        i + 8 <= s.len(),
        s.subrange(i, i + 8) == enc_index(ix),
    ensures
        rd_index(s, i) == Some((ix, i + 8)),
{
    lemma_rd_usize_at(s, i, ix.0);
}

#[verifier::rlimit(100)]
pub proof fn lemma_rd_full_at(s: Seq<u8>, i: int, f: FullGameState)
    requires
        0 <= i,
        i + 77 <= s.len(),
        s.subrange(i, i + 77) == enc_full_state(f),
    ensures
        rd_full_state(s, i) == Some((f, i + 77)),
{
    lemma_enc_full_len(f);
    lemma_enc_world_len(f.player1_position);
    lemma_enc_world_len(f.player2_position);
    lemma_enc_upair_len(f.player1_logic_pos);
    lemma_enc_upair_len(f.player2_logic_pos);
    lemma_enc_u32_len(f.player1_bread);
    lemma_enc_u32_len(f.player2_bread);
    lemma_enc_usize_len(f.current_level.0);
    let whole = enc_full_state(f);
    lemma_subrange_of_eq(s, i, whole, 0, 1);
    lemma_subrange_of_eq(s, i, whole, 1, 13);
    lemma_subrange_of_eq(s, i, whole, 13, 25);
    lemma_subrange_of_eq(s, i, whole, 25, 26);
    lemma_subrange_of_eq(s, i, whole, 26, 27);
    lemma_subrange_of_eq(s, i, whole, 27, 43);
    lemma_subrange_of_eq(s, i, whole, 43, 59);
    lemma_subrange_of_eq(s, i, whole, 59, 63);
    lemma_subrange_of_eq(s, i, whole, 63, 67);
    lemma_subrange_of_eq(s, i, whole, 67, 68);
    lemma_subrange_of_eq(s, i, whole, 68, 69);
    lemma_subrange_of_eq(s, i, whole, 69, 77);
    assert(whole.subrange(0, 1) =~= enc_game_state(f.current_state));
    assert(whole.subrange(1, 13) =~= enc_world(f.player1_position));
    assert(whole.subrange(13, 25) =~= enc_world(f.player2_position));
    assert(whole.subrange(25, 26) =~= enc_character(f.player1_character));
    assert(whole.subrange(26, 27) =~= enc_character(f.player2_character));
    assert(whole.subrange(27, 43) =~= enc_upair(f.player1_logic_pos));
    assert(whole.subrange(43, 59) =~= enc_upair(f.player2_logic_pos));
    assert(whole.subrange(59, 63) =~= enc_u32(f.player1_bread));
    assert(whole.subrange(63, 67) =~= enc_u32(f.player2_bread));
    assert(whole.subrange(67, 68) =~= enc_bool(f.player1_can_move));
    assert(whole.subrange(68, 69) =~= enc_bool(f.player2_can_move));
    assert(whole.subrange(69, 77) =~= enc_index(f.current_level));
    lemma_rd_game_state_at(s, i, f.current_state);
    lemma_rd_world_at(s, i + 1, f.player1_position);
    lemma_rd_world_at(s, i + 13, f.player2_position);
    lemma_rd_character_at(s, i + 25, f.player1_character);
    lemma_rd_character_at(s, i + 26, f.player2_character);
    lemma_rd_upair_at(s, i + 27, f.player1_logic_pos);
    lemma_rd_upair_at(s, i + 43, f.player2_logic_pos);
    lemma_rd_u32_at(s, i + 59, f.player1_bread);
    lemma_rd_u32_at(s, i + 63, f.player2_bread);
    lemma_rd_bool_at(s, i + 67, f.player1_can_move);
    lemma_rd_bool_at(s, i + 68, f.player2_can_move);
    lemma_rd_index_at(s, i + 69, f.current_level);
}

// ---------------------------------------------------------------------------
// Variable-length data: rows of cells and whole grids, length-prefixed
// ---------------------------------------------------------------------------

pub open spec fn enc_chars(row: Seq<char>) -> Seq<u8>
    decreases row.len(),
{
    if row.len() == 0 {
        Seq::empty()
    } else {
        enc_char(row[0]) + enc_chars(row.drop_first())
    }
}

pub open spec fn enc_row(row: Seq<char>) -> Seq<u8> {
    enc_u64(row.len() as u64) + enc_chars(row)
}

pub open spec fn enc_rows(g: Seq<Seq<char>>) -> Seq<u8>
    decreases g.len(),
{
    if g.len() == 0 {
        Seq::empty()
    } else {
        enc_row(g[0]) + enc_rows(g.drop_first())
    }
}

pub open spec fn enc_grid(g: Seq<Seq<char>>) -> Seq<u8> {
    enc_u64(g.len() as u64) + enc_rows(g)
}

/// Every length in the grid fits the 64-bit prefixes of the encoding; true
/// of every grid held in vectors.
pub open spec fn grid_wf(g: Seq<Seq<char>>) -> bool {
    &&& g.len() <= u64::MAX
    &&& forall|k: int| 0 <= k < g.len() ==> (#[trigger] g[k]).len() <= u64::MAX
}

pub open spec fn rd_chars(s: Seq<u8>, i: int, n: nat) -> Option<(Seq<char>, int)>
    decreases n,
{
    if n == 0 {
        Some((Seq::empty(), i))
    } else {
        match rd_char(s, i) {
            Some((c, j)) => match rd_chars(s, j, (n - 1) as nat) {
                Some((cs, k)) => Some((seq![c] + cs, k)),
                None => None,
            },
            None => None,
        }
    }
}

pub open spec fn rd_row(s: Seq<u8>, i: int) -> Option<(Seq<char>, int)> {
    match rd_u64(s, i) {
        Some((n, j)) => rd_chars(s, j, n as nat),
        None => None,
    }
}

pub open spec fn rd_rows(s: Seq<u8>, i: int, n: nat) -> Option<(Seq<Seq<char>>, int)>
    decreases n,
{
    if n == 0 {
        Some((Seq::empty(), i))
    } else {
        match rd_row(s, i) {
            Some((row, j)) => match rd_rows(s, j, (n - 1) as nat) {
                Some((rows, k)) => Some((seq![row] + rows, k)),
                None => None,
            },
            None => None,
        }
    }
}

pub open spec fn rd_grid(s: Seq<u8>, i: int) -> Option<(Seq<Seq<char>>, int)> {
    match rd_u64(s, i) {
        Some((n, j)) => rd_rows(s, j, n as nat),
        None => None,
    }
}

pub proof fn lemma_enc_chars_len(row: Seq<char>)
    ensures
        enc_chars(row).len() == 4 * row.len(),
    decreases row.len(),
{
    if row.len() > 0 {
        lemma_enc_u32_len(row[0] as u32);
        lemma_enc_chars_len(row.drop_first());
    }
}

pub proof fn lemma_enc_row_len(row: Seq<char>)
    ensures
        enc_row(row).len() == 8 + 4 * row.len(),
{
    lemma_enc_u64_len(row.len() as u64);
    lemma_enc_chars_len(row);
}

/// Encoding one more cell appends its four bytes.
proof fn lemma_enc_chars_snoc(row: Seq<char>, k: int)
    requires
        0 <= k < row.len(),
    ensures
        enc_chars(row.take(k + 1)) == enc_chars(row.take(k)) + enc_char(row[k]),
    decreases k,
{
    if k == 0 {
        assert(row.take(0) =~= Seq::<char>::empty());
        assert(row.take(1).len() == 1);
        assert(row.take(1)[0] == row[0]);
        assert(row.take(1).drop_first() =~= Seq::<char>::empty());
        assert(enc_chars(row.take(1)) == enc_char(row.take(1)[0]) + enc_chars(
            row.take(1).drop_first(),
        ));
        assert(enc_char(row[0]) + Seq::<u8>::empty() =~= enc_char(row[0]));
        assert(enc_chars(row.take(0)) + enc_char(row[0]) =~= enc_char(row[0]));
    } else {
        let t = row.drop_first();
        lemma_enc_chars_snoc(t, k - 1);
        assert(row.take(k + 1).drop_first() =~= t.take(k));
        assert(row.take(k).drop_first() =~= t.take(k - 1));
        assert(row.take(k + 1)[0] == row[0]);
        assert(row.take(k)[0] == row[0]);
        assert(enc_chars(row.take(k + 1)) == enc_char(row[0]) + enc_chars(t.take(k)));
        assert(enc_chars(row.take(k)) == enc_char(row[0]) + enc_chars(t.take(k - 1)));
        assert(t[k - 1] == row[k]);
        assert(enc_char(row[0]) + (enc_chars(t.take(k - 1)) + enc_char(row[k])) =~= (enc_char(
            row[0],
        ) + enc_chars(t.take(k - 1))) + enc_char(row[k]));
    }
}

/// Encoding one more row appends that row's bytes.
proof fn lemma_enc_rows_snoc(g: Seq<Seq<char>>, k: int)
    requires
        0 <= k < g.len(),
    ensures
        enc_rows(g.take(k + 1)) == enc_rows(g.take(k)) + enc_row(g[k]),
    decreases k,
{
    if k == 0 {
        assert(g.take(0) =~= Seq::<Seq<char>>::empty());
        assert(g.take(1).len() == 1);
        assert(g.take(1)[0] == g[0]);
        assert(g.take(1).drop_first() =~= Seq::<Seq<char>>::empty());
        assert(enc_rows(g.take(1)) == enc_row(g.take(1)[0]) + enc_rows(g.take(1).drop_first()));
        assert(enc_row(g[0]) + Seq::<u8>::empty() =~= enc_row(g[0]));
        assert(enc_rows(g.take(0)) + enc_row(g[0]) =~= enc_row(g[0]));
    } else {
        let t = g.drop_first();
        lemma_enc_rows_snoc(t, k - 1);
        assert(g.take(k + 1).drop_first() =~= t.take(k));
        assert(g.take(k).drop_first() =~= t.take(k - 1));
        assert(g.take(k + 1)[0] == g[0]);
        assert(g.take(k)[0] == g[0]);
        assert(enc_rows(g.take(k + 1)) == enc_row(g[0]) + enc_rows(t.take(k)));
        assert(enc_rows(g.take(k)) == enc_row(g[0]) + enc_rows(t.take(k - 1)));
        assert(t[k - 1] == g[k]);
        assert(enc_row(g[0]) + (enc_rows(t.take(k - 1)) + enc_row(g[k])) =~= (enc_row(g[0])
            + enc_rows(t.take(k - 1))) + enc_row(g[k]));
    }
}

pub proof fn lemma_rd_chars_at(s: Seq<u8>, i: int, row: Seq<char>)
    requires
        0 <= i,
        i + 4 * row.len() <= s.len(),
        s.subrange(i, i + 4 * row.len()) == enc_chars(row),
    ensures
        rd_chars(s, i, row.len() as nat) == Some((row, i + 4 * row.len())),
    decreases row.len(),
{
    if row.len() == 0 {
        assert(row =~= Seq::<char>::empty());
    } else {
        let whole = enc_chars(row);
        let rest = row.drop_first();
        lemma_enc_chars_len(row);
        lemma_enc_chars_len(rest);
        lemma_enc_u32_len(row[0] as u32);
        lemma_subrange_of_eq(s, i, whole, 0, 4);
        assert(whole.subrange(0, 4) =~= enc_char(row[0]));
        lemma_rd_char_at(s, i, row[0]);
        lemma_subrange_of_eq(s, i, whole, 4, whole.len() as int);
        assert(whole.subrange(4, whole.len() as int) =~= enc_chars(rest));
        lemma_rd_chars_at(s, i + 4, rest);
        assert(seq![row[0]] + rest =~= row);
    }
}

pub proof fn lemma_rd_row_at(s: Seq<u8>, i: int, row: Seq<char>)
    requires
        0 <= i,
        row.len() <= u64::MAX,
        i + 8 + 4 * row.len() <= s.len(),
        s.subrange(i, i + 8 + 4 * row.len()) == enc_row(row),
    ensures
        rd_row(s, i) == Some((row, i + 8 + 4 * row.len())),
{
    let whole = enc_row(row);
    lemma_enc_row_len(row);
    lemma_enc_u64_len(row.len() as u64);
    lemma_enc_chars_len(row);
    lemma_subrange_of_eq(s, i, whole, 0, 8);
    assert(whole.subrange(0, 8) =~= enc_u64(row.len() as u64));
    lemma_rd_u64_at(s, i, row.len() as u64);
    lemma_subrange_of_eq(s, i, whole, 8, whole.len() as int);
    assert(whole.subrange(8, whole.len() as int) =~= enc_chars(row));
    lemma_rd_chars_at(s, i + 8, row);
    assert((row.len() as u64) as nat == row.len());
}

pub proof fn lemma_rd_rows_at(s: Seq<u8>, i: int, g: Seq<Seq<char>>)
    requires
        0 <= i,
        forall|k: int| 0 <= k < g.len() ==> (#[trigger] g[k]).len() <= u64::MAX,
        i + enc_rows(g).len() <= s.len(),
        s.subrange(i, i + enc_rows(g).len()) == enc_rows(g),
    ensures
        rd_rows(s, i, g.len() as nat) == Some((g, i + enc_rows(g).len())),
    decreases g.len(),
{
    if g.len() == 0 {
        assert(g =~= Seq::<Seq<char>>::empty());
    } else {
        let whole = enc_rows(g);
        let rest = g.drop_first();
        let l0 = enc_row(g[0]).len();
        lemma_enc_row_len(g[0]);
        lemma_subrange_of_eq(s, i, whole, 0, l0 as int);
        assert(whole.subrange(0, l0 as int) =~= enc_row(g[0]));
        lemma_rd_row_at(s, i, g[0]);
        lemma_subrange_of_eq(s, i, whole, l0 as int, whole.len() as int);
        assert(whole.subrange(l0 as int, whole.len() as int) =~= enc_rows(rest));
        assert(forall|k: int|
            0 <= k < rest.len() ==> (#[trigger] rest[k]).len() <= u64::MAX) by {
            assert(forall|k: int| 0 <= k < rest.len() ==> rest[k] == g[k + 1]);
        }
        lemma_rd_rows_at(s, i + l0, rest);
        assert(seq![g[0]] + rest =~= g);
    }
}

pub proof fn lemma_rd_grid_at(s: Seq<u8>, i: int, g: Seq<Seq<char>>)
    requires
        0 <= i,
        grid_wf(g),
        i + enc_grid(g).len() <= s.len(),
        s.subrange(i, i + enc_grid(g).len()) == enc_grid(g),
    ensures
        rd_grid(s, i) == Some((g, i + enc_grid(g).len())),
{
    let whole = enc_grid(g);
    lemma_enc_u64_len(g.len() as u64);
    lemma_subrange_of_eq(s, i, whole, 0, 8);
    assert(whole.subrange(0, 8) =~= enc_u64(g.len() as u64));
    lemma_rd_u64_at(s, i, g.len() as u64);
    lemma_subrange_of_eq(s, i, whole, 8, whole.len() as int);
    assert(whole.subrange(8, whole.len() as int) =~= enc_rows(g));
    lemma_rd_rows_at(s, i + 8, g);
    assert((g.len() as u64) as nat == g.len());
}

fn push_row(out: &mut Vec<u8>, row: &Vec<char>)
    ensures
        final(out)@ == old(out)@ + enc_row(row@),
{
    push_u64(out, row.len() as u64);
    let ghost base = out@;
    let mut k: usize = 0;
    while k < row.len()
        invariant
            k <= row@.len(),
            out@ == base + enc_chars(row@.take(k as int)),
            base == old(out)@ + enc_u64(row@.len() as u64),
        decreases row@.len() - k,
    {
        push_char(out, row[k]);
        proof {
            lemma_enc_chars_snoc(row@, k as int);
            assert(out@ =~= base + enc_chars(row@.take(k + 1)));
        }
        k = k + 1;
    }
    proof {
        assert(row@.take(row@.len() as int) =~= row@);
        assert(out@ =~= old(out)@ + enc_row(row@));
    }
}

fn push_grid(out: &mut Vec<u8>, g: &Vec<Vec<char>>)
    ensures
        final(out)@ == old(out)@ + enc_grid(g.deep_view()),
{
    push_u64(out, g.len() as u64);
    let ghost base = out@;
    let ghost dv = g.deep_view();
    let mut r: usize = 0;
    while r < g.len()
        invariant
            r <= g@.len(),
            dv == g.deep_view(),
            dv.len() == g@.len(),
            out@ == base + enc_rows(dv.take(r as int)),
            base == old(out)@ + enc_u64(dv.len() as u64),
        decreases g@.len() - r,
    {
        proof {
            crate::level::lemma_grid_deep_view_index(*g, r as int);
        }
        push_row(out, &g[r]);
        proof {
            lemma_enc_rows_snoc(dv, r as int);
            assert(out@ =~= base + enc_rows(dv.take(r + 1)));
        }
        r = r + 1;
    }
    proof {
        assert(dv.take(dv.len() as int) =~= dv);
        assert(out@ =~= old(out)@ + enc_grid(dv));
    }
}

fn read_chars(b: &[u8], i: usize, n: u64) -> (r: Option<(Vec<char>, usize)>)
    ensures
        r is Some ==> rd_chars(b@, i as int, n as nat) == Some(((r->0).0@, (r->0).1 as int)),
        r is None ==> rd_chars(b@, i as int, n as nat) is None,
{
    let mut acc: Vec<char> = Vec::new();
    let mut cur: usize = i;
    let mut k: u64 = 0;
    proof {
        assert(acc@ =~= Seq::<char>::empty());
    }
    while k < n
        invariant
            k <= n,
            ({
                match rd_chars(b@, cur as int, (n - k) as nat) {
                    Some((cs, j)) => rd_chars(b@, i as int, n as nat) == Some((acc@ + cs, j)),
                    None => rd_chars(b@, i as int, n as nat) is None,
                }
            }),
        decreases n - k,
    {
        match read_char(b, cur) {
            Some((c, j)) => {
                let ghost rest = rd_chars(b@, j as int, (n - k - 1) as nat);
                acc.push(c);
                cur = j;
                k = k + 1;
                proof {
                    if rest is Some {
                        let (cs2, e) = rest->0;
                        assert(acc@ + cs2 =~= acc@.drop_last() + (seq![c] + cs2));
                    }
                }
            },
            None => {
                return None;
            },
        }
    }
    proof {
        assert(rd_chars(b@, cur as int, 0) == Some((Seq::<char>::empty(), cur as int)));
        assert(acc@ + Seq::<char>::empty() =~= acc@);
    }
    Some((acc, cur))
}

fn read_row(b: &[u8], i: usize) -> (r: Option<(Vec<char>, usize)>)
    ensures
        r is Some ==> rd_row(b@, i as int) == Some(((r->0).0@, (r->0).1 as int)),
        r is None ==> rd_row(b@, i as int) is None,
{
    match read_u64(b, i) {
        Some((n, j)) => read_chars(b, j, n),
        None => None,
    }
}

fn read_rows(b: &[u8], i: usize, n: u64) -> (r: Option<(Vec<Vec<char>>, usize)>)
    ensures
        r is Some ==> rd_rows(b@, i as int, n as nat) == Some(
            ((r->0).0.deep_view(), (r->0).1 as int),
        ),
        r is None ==> rd_rows(b@, i as int, n as nat) is None,
{
    let mut acc: Vec<Vec<char>> = Vec::new();
    let mut cur: usize = i;
    let mut k: u64 = 0;
    proof {
        assert(acc.deep_view() =~= Seq::<Seq<char>>::empty());
    }
    while k < n
        invariant
            k <= n,
            ({
                match rd_rows(b@, cur as int, (n - k) as nat) {
                    Some((rows, j)) => rd_rows(b@, i as int, n as nat) == Some(
                        (acc.deep_view() + rows, j),
                    ),
                    None => rd_rows(b@, i as int, n as nat) is None,
                }
            }),
        decreases n - k,
    {
        match read_row(b, cur) {
            Some((row, j)) => {
                let ghost rest = rd_rows(b@, j as int, (n - k - 1) as nat);
                let ghost prev = acc.deep_view();
                let ghost rowv = row@;
                acc.push(row);
                cur = j;
                k = k + 1;
                proof {
                    assert(acc.deep_view() =~~= prev.push(rowv));
                    if rest is Some {
                        let (rows2, e) = rest->0;
                        assert(acc.deep_view() + rows2 =~= prev + (seq![rowv] + rows2));
                    }
                }
            },
            None => {
                return None;
            },
        }
    }
    proof {
        assert(rd_rows(b@, cur as int, 0) == Some((Seq::<Seq<char>>::empty(), cur as int)));
        assert(acc.deep_view() + Seq::<Seq<char>>::empty() =~= acc.deep_view());
    }
    Some((acc, cur))
}

fn read_grid(b: &[u8], i: usize) -> (r: Option<(Vec<Vec<char>>, usize)>)
    ensures
        r is Some ==> rd_grid(b@, i as int) == Some(((r->0).0.deep_view(), (r->0).1 as int)),
        r is None ==> rd_grid(b@, i as int) is None,
{
    match read_u64(b, i) {
        Some((n, j)) => read_rows(b, j, n),
        None => None,
    }
}

// ---------------------------------------------------------------------------
// The two message enums
// ---------------------------------------------------------------------------

/// The bytes that stand for a client message: a discriminant, then the
/// fields in declaration order.
pub open spec fn spec_encode_client(m: ClientMessage) -> Seq<u8> {
    match m {
        ClientMessage::StateChangeRequest(g) => seq![0u8] + enc_game_state(g),
        ClientMessage::PlayerPositionUpdate(w) => seq![1u8] + enc_world(w),
        ClientMessage::RequestFullState => seq![2u8],
        ClientMessage::CharacterSelected { player_id, character } => seq![3u8] + seq![player_id]
            + enc_character(character),
        ClientMessage::ReadyForGameStart => seq![4u8],
        ClientMessage::PlayerMovementInput { player_id, direction } => seq![5u8] + seq![player_id]
            + enc_direction(direction),
        ClientMessage::NextLevelRequest => seq![6u8],
        ClientMessage::RestartLevel => seq![7u8],
        ClientMessage::UndoLevel => seq![8u8],
        ClientMessage::ChangeLevelCheat(ix) => seq![9u8] + enc_index(ix),
    }
}

pub open spec fn rd_client_message(s: Seq<u8>, i: int) -> Option<(ClientMessage, int)> {
    match rd_u8(s, i) {
        Some((t, j)) => if t == 0 {
            match rd_game_state(s, j) {
                Some((g, k)) => Some((ClientMessage::StateChangeRequest(g), k)),
                None => None,
            }
        } else if t == 1 {
            match rd_world(s, j) {
                Some((w, k)) => Some((ClientMessage::PlayerPositionUpdate(w), k)),
                None => None,
            }
        } else if t == 2 {
            Some((ClientMessage::RequestFullState, j))
        } else if t == 3 {
            match rd_u8(s, j) {
                Some((player_id, k)) => match rd_character(s, k) {
                    Some((character, l)) => Some(
                        (ClientMessage::CharacterSelected { player_id, character }, l),
                    ),
                    None => None,
                },
                None => None,
            }
        } else if t == 4 {
            Some((ClientMessage::ReadyForGameStart, j))
        } else if t == 5 {
            match rd_u8(s, j) {
                Some((player_id, k)) => match rd_direction(s, k) {
                    Some((direction, l)) => Some(
                        (ClientMessage::PlayerMovementInput { player_id, direction }, l),
                    ),
                    None => None,
                },
                None => None,
            }
        } else if t == 6 {
            Some((ClientMessage::NextLevelRequest, j))
        } else if t == 7 {
            Some((ClientMessage::RestartLevel, j))
        } else if t == 8 {
            Some((ClientMessage::UndoLevel, j))
        } else if t == 9 {
            match rd_index(s, j) {
                Some((ix, k)) => Some((ClientMessage::ChangeLevelCheat(ix), k)),
                None => None,
            }
        } else {
            None
        },
        None => None,
    }
}

/// What a byte sequence decodes to as a client message: the message read
/// from the front, provided it consumes every byte.
pub open spec fn spec_decode_client(s: Seq<u8>) -> Option<ClientMessage> {
    match rd_client_message(s, 0) {
        Some((m, j)) => if j == s.len() {
            Some(m)
        } else {
            None
        },
        None => None,
    }
}

/// The bytes that stand for a server message.
pub open spec fn spec_encode_server(m: ServerMessageV) -> Seq<u8> {
    match m {
        ServerMessageV::StateChangeNotification(g) => seq![0u8] + enc_game_state(g),
        ServerMessageV::FullStateSync(f) => seq![1u8] + enc_full_state(f),
        ServerMessageV::PlayerPositionUpdate { player_id, position } => seq![2u8] + seq![player_id]
            + enc_world(position),
        ServerMessageV::CharacterSelectionUpdate { player1_choice, player2_choice } => seq![3u8]
            + enc_opt_character(player1_choice) + enc_opt_character(player2_choice),
        ServerMessageV::StartGameWithCharacters { player1_character, player2_character } => seq![
            4u8,
        ] + enc_character(player1_character) + enc_character(player2_character),
        ServerMessageV::PlayerMovementUpdate { player_id, direction } => seq![5u8] + seq![player_id]
            + enc_direction(direction),
        ServerMessageV::NextLevelNotification { level_index } => seq![6u8] + enc_index(level_index),
        ServerMessageV::DoRestartLevel => seq![7u8],
        ServerMessageV::DoUndoLevel(g) => seq![8u8] + enc_grid(g),
        ServerMessageV::DoChangeLevel(ix) => seq![9u8] + enc_index(ix),
    }
}

pub open spec fn rd_server_message(s: Seq<u8>, i: int) -> Option<(ServerMessageV, int)> {
    match rd_u8(s, i) {
        Some((t, j)) => if t == 0 {
            match rd_game_state(s, j) {
                Some((g, k)) => Some((ServerMessageV::StateChangeNotification(g), k)),
                None => None,
            }
        } else if t == 1 {
            match rd_full_state(s, j) {
                Some((f, k)) => Some((ServerMessageV::FullStateSync(f), k)),
                None => None,
            }
        } else if t == 2 {
            match rd_u8(s, j) {
                Some((player_id, k)) => match rd_world(s, k) {
                    Some((position, l)) => Some(
                        (ServerMessageV::PlayerPositionUpdate { player_id, position }, l),
                    ),
                    None => None,
                },
                None => None,
            }
        } else if t == 3 {
            match rd_opt_character(s, j) {
                Some((player1_choice, k)) => match rd_opt_character(s, k) {
                    Some((player2_choice, l)) => Some(
                        (
                            ServerMessageV::CharacterSelectionUpdate {
                                player1_choice,
                                player2_choice,
                            },
                            l,
                        ),
                    ),
                    None => None,
                },
                None => None,
            }
        } else if t == 4 {
            match rd_character(s, j) {
                Some((player1_character, k)) => match rd_character(s, k) {
                    Some((player2_character, l)) => Some(
                        (
                            ServerMessageV::StartGameWithCharacters {
                                player1_character,
                                player2_character,
                            },
                            l,
                        ),
                    ),
                    None => None,
                },
                None => None,
            }
        } else if t == 5 {
            match rd_u8(s, j) {
                Some((player_id, k)) => match rd_direction(s, k) {
                    Some((direction, l)) => Some(
                        (ServerMessageV::PlayerMovementUpdate { player_id, direction }, l),
                    ),
                    None => None,
                },
                None => None,
            }
        } else if t == 6 {
            match rd_index(s, j) {
                Some((level_index, k)) => Some(
                    (ServerMessageV::NextLevelNotification { level_index }, k),
                ),
                None => None,
            }
        } else if t == 7 {
            Some((ServerMessageV::DoRestartLevel, j))
        } else if t == 8 {
            match rd_grid(s, j) {
                Some((g, k)) => Some((ServerMessageV::DoUndoLevel(g), k)),
                None => None,
            }
        } else if t == 9 {
            match rd_index(s, j) {
                Some((ix, k)) => Some((ServerMessageV::DoChangeLevel(ix), k)),
                None => None,
            }
        } else {
            None
        },
        None => None,
    }
}

/// What a byte sequence decodes to as a server message.
pub open spec fn spec_decode_server(s: Seq<u8>) -> Option<ServerMessageV> {
    match rd_server_message(s, 0) {
        Some((m, j)) => if j == s.len() {
            Some(m)
        } else {
            None
        },
        None => None,
    }
}

/// The grid of a `DoUndoLevel` fits its length prefixes; true of every
/// message built from a real level.
pub open spec fn server_msg_wf(m: ServerMessageV) -> bool {
    match m {
        ServerMessageV::DoUndoLevel(g) => grid_wf(g),
        _ => true,
    }
}

/// Every server message a program can hold is well-formed: its level, if
/// any, lives in vectors, whose lengths fit the 64-bit prefixes.
pub proof fn lemma_server_message_wf(m: &ServerMessage)
    ensures
        server_msg_wf(m@),
{
    match m {
        ServerMessage::DoUndoLevel(l) => {
            let dv = l.0.deep_view();
            assert(l.0@.len() == vstd::std_specs::vec::spec_vec_len(&l.0));
            assert(dv.len() <= u64::MAX);
            assert forall|k: int| 0 <= k < dv.len() implies (#[trigger] dv[k]).len()
                <= u64::MAX by {
                crate::level::lemma_grid_deep_view_index(l.0, k);
                assert(l.0@[k]@.len() == vstd::std_specs::vec::spec_vec_len(&l.0@[k]));
            }
        },
        _ => {},
    }
}

/// Turns a client message into its bytes.
pub fn encode_client_message(m: &ClientMessage) -> (r: Vec<u8>)
    ensures
        r@ == spec_encode_client(*m),
{
    let mut out: Vec<u8> = Vec::new();
    match m {
        ClientMessage::StateChangeRequest(g) => {
            push_u8(&mut out, 0);
            push_game_state(&mut out, *g);
        },
        ClientMessage::PlayerPositionUpdate(w) => {
            push_u8(&mut out, 1);
            push_world(&mut out, *w);
        },
        ClientMessage::RequestFullState => {
            push_u8(&mut out, 2);
        },
        ClientMessage::CharacterSelected { player_id, character } => {
            push_u8(&mut out, 3);
            push_u8(&mut out, *player_id);
            push_character(&mut out, *character);
        },
        ClientMessage::ReadyForGameStart => {
            push_u8(&mut out, 4);
        },
        ClientMessage::PlayerMovementInput { player_id, direction } => {
            push_u8(&mut out, 5);
            push_u8(&mut out, *player_id);
            push_direction(&mut out, *direction);
        },
        ClientMessage::NextLevelRequest => {
            push_u8(&mut out, 6);
        },
        ClientMessage::RestartLevel => {
            push_u8(&mut out, 7);
        },
        ClientMessage::UndoLevel => {
            push_u8(&mut out, 8);
        },
        ClientMessage::ChangeLevelCheat(ix) => {
            push_u8(&mut out, 9);
            push_index(&mut out, *ix);
        },
    }
    proof {
        assert(out@ =~= spec_encode_client(*m));
    }
    out
}

/// Turns bytes back into the client message they stand for, rejecting
/// anything malformed, truncated, or trailing extra bytes.
pub fn decode_client_message(b: &[u8]) -> (r: Result<ClientMessage, DecodeError>)
    ensures
        r is Ok <==> spec_decode_client(b@) is Some,
        r is Ok ==> spec_decode_client(b@) == Some(r->Ok_0),
        r is Err ==> r->Err_0 == DecodeError,
{
    match read_client_message(b, 0) {
        Some((m, j)) => {
            if j == b.len() {
                Ok(m)
            } else {
                Err(DecodeError)
            }
        },
        None => Err(DecodeError),
    }
}

fn read_client_message(b: &[u8], i: usize) -> (r: Option<(ClientMessage, usize)>)
    ensures
        matches_read(rd_client_message(b@, i as int), r),
{
    match read_u8(b, i) {
        Some((t, j)) => {
            if t == 0 {
                match read_game_state(b, j) {
                    Some((g, k)) => Some((ClientMessage::StateChangeRequest(g), k)),
                    None => None,
                }
            } else if t == 1 {
                match read_world(b, j) {
                    Some((w, k)) => Some((ClientMessage::PlayerPositionUpdate(w), k)),
                    None => None,
                }
            } else if t == 2 {
                Some((ClientMessage::RequestFullState, j))
            } else if t == 3 {
                match read_u8(b, j) {
                    Some((player_id, k)) => match read_character(b, k) {
                        Some((character, l)) => Some(
                            (ClientMessage::CharacterSelected { player_id, character }, l),
                        ),
                        None => None,
                    },
                    None => None,
                }
            } else if t == 4 {
                Some((ClientMessage::ReadyForGameStart, j))
            } else if t == 5 {
                match read_u8(b, j) {
                    Some((player_id, k)) => match read_direction(b, k) {
                        Some((direction, l)) => Some(
                            (ClientMessage::PlayerMovementInput { player_id, direction }, l),
                        ),
                        None => None,
                    },
                    None => None,
                }
            } else if t == 6 {
                Some((ClientMessage::NextLevelRequest, j))
            } else if t == 7 {
                Some((ClientMessage::RestartLevel, j))
            } else if t == 8 {
                Some((ClientMessage::UndoLevel, j))
            } else if t == 9 {
                match read_index(b, j) {
                    Some((ix, k)) => Some((ClientMessage::ChangeLevelCheat(ix), k)),
                    None => None,
                }
            } else {
                None
            }
        },
        None => None,
    }
}

/// Turns a server message into its bytes.
pub fn encode_server_message(m: &ServerMessage) -> (r: Vec<u8>)
    ensures
        r@ == spec_encode_server(m@),
{
    let mut out: Vec<u8> = Vec::new();
    match m {
        ServerMessage::StateChangeNotification(g) => {
            push_u8(&mut out, 0);
            push_game_state(&mut out, *g);
        },
        ServerMessage::FullStateSync(f) => {
            push_u8(&mut out, 1);
            push_full_state(&mut out, f);
        },
        ServerMessage::PlayerPositionUpdate { player_id, position } => {
            push_u8(&mut out, 2);
            push_u8(&mut out, *player_id);
            push_world(&mut out, *position);
        },
        ServerMessage::CharacterSelectionUpdate { player1_choice, player2_choice } => {
            push_u8(&mut out, 3);
            push_opt_character(&mut out, *player1_choice);
            push_opt_character(&mut out, *player2_choice);
        },
        ServerMessage::StartGameWithCharacters { player1_character, player2_character } => {
            push_u8(&mut out, 4);
            push_character(&mut out, *player1_character);
            push_character(&mut out, *player2_character);
        },
        ServerMessage::PlayerMovementUpdate { player_id, direction } => {
            push_u8(&mut out, 5);
            push_u8(&mut out, *player_id);
            push_direction(&mut out, *direction);
        },
        ServerMessage::NextLevelNotification { level_index } => {
            push_u8(&mut out, 6);
            push_index(&mut out, *level_index);
        },
        ServerMessage::DoRestartLevel => {
            push_u8(&mut out, 7);
        },
        ServerMessage::DoUndoLevel(l) => {
            push_u8(&mut out, 8);
            push_grid(&mut out, &l.0);
        },
        ServerMessage::DoChangeLevel(ix) => {
            push_u8(&mut out, 9);
            push_index(&mut out, *ix);
        },
    }
    proof {
        assert(out@ =~= spec_encode_server(m@));
    }
    out
}

/// Turns bytes back into the server message they stand for.
pub fn decode_server_message(b: &[u8]) -> (r: Result<ServerMessage, DecodeError>)
    ensures
        r is Ok <==> spec_decode_server(b@) is Some,
        r is Ok ==> spec_decode_server(b@) == Some(r->Ok_0@),
        r is Err ==> r->Err_0 == DecodeError,
{
    match read_server_message(b, 0) {
        Some((m, j)) => {
            if j == b.len() {
                Ok(m)
            } else {
                Err(DecodeError)
            }
        },
        None => Err(DecodeError),
    }
}

fn read_server_message(b: &[u8], i: usize) -> (r: Option<(ServerMessage, usize)>)
    ensures
        ({
            match r {
                Some(p) => rd_server_message(b@, i as int) == Some((p.0@, p.1 as int)),
                None => rd_server_message(b@, i as int) is None,
            }
        }),
{
    match read_u8(b, i) {
        Some((t, j)) => {
            if t == 0 {
                match read_game_state(b, j) {
                    Some((g, k)) => Some((ServerMessage::StateChangeNotification(g), k)),
                    None => None,
                }
            } else if t == 1 {
                match read_full_state(b, j) {
                    Some((f, k)) => Some((ServerMessage::FullStateSync(f), k)),
                    None => None,
                }
            } else if t == 2 {
                match read_u8(b, j) {
                    Some((player_id, k)) => match read_world(b, k) {
                        Some((position, l)) => Some(
                            (ServerMessage::PlayerPositionUpdate { player_id, position }, l),
                        ),
                        None => None,
                    },
                    None => None,
                }
            } else if t == 3 {
                match read_opt_character(b, j) {
                    Some((player1_choice, k)) => match read_opt_character(b, k) {
                        Some((player2_choice, l)) => Some(
                            (
                                ServerMessage::CharacterSelectionUpdate {
                                    player1_choice,
                                    player2_choice,
                                },
                                l,
                            ),
                        ),
                        None => None,
                    },
                    None => None,
                }
            } else if t == 4 {
                match read_character(b, j) {
                    Some((player1_character, k)) => match read_character(b, k) {
                        Some((player2_character, l)) => Some(
                            (
                                ServerMessage::StartGameWithCharacters {
                                    player1_character,
                                    player2_character,
                                },
                                l,
                            ),
                        ),
                        None => None,
                    },
                    None => None,
                }
            } else if t == 5 {
                match read_u8(b, j) {
                    Some((player_id, k)) => match read_direction(b, k) {
                        Some((direction, l)) => Some(
                            (ServerMessage::PlayerMovementUpdate { player_id, direction }, l),
                        ),
                        None => None,
                    },
                    None => None,
                }
            } else if t == 6 {
                match read_index(b, j) {
                    Some((level_index, k)) => Some(
                        (ServerMessage::NextLevelNotification { level_index }, k),
                    ),
                    None => None,
                }
            } else if t == 7 {
                Some((ServerMessage::DoRestartLevel, j))
            } else if t == 8 {
                match read_grid(b, j) {
                    Some((g, k)) => Some((ServerMessage::DoUndoLevel(Level(g)), k)),
                    None => None,
                }
            } else if t == 9 {
                match read_index(b, j) {
                    Some((ix, k)) => Some((ServerMessage::DoChangeLevel(ix), k)),
                    None => None,
                }
            } else {
                None
            }
        },
        None => None,
    }
}

/// Every client message survives the round trip through its bytes.
pub proof fn lemma_client_round_trip(m: ClientMessage)
    ensures
        spec_decode_client(spec_encode_client(m)) == Some(m),
{
    let s = spec_encode_client(m);
    match m {
        ClientMessage::StateChangeRequest(g) => {
            assert(s[0] == 0u8);
            assert(s.subrange(1, 2) =~= enc_game_state(g));
            lemma_rd_game_state_at(s, 1, g);
        },
        ClientMessage::PlayerPositionUpdate(w) => {
            lemma_enc_world_len(w);
            assert(s[0] == 1u8);
            assert(s.subrange(1, 13) =~= enc_world(w));
            lemma_rd_world_at(s, 1, w);
        },
        ClientMessage::RequestFullState => {
            assert(s[0] == 2u8);
        },
        ClientMessage::CharacterSelected { player_id, character } => {
            assert(s[0] == 3u8);
            assert(s[1] == player_id);
            assert(s.subrange(2, 3) =~= enc_character(character));
            lemma_rd_character_at(s, 2, character);
        },
        ClientMessage::ReadyForGameStart => {
            assert(s[0] == 4u8);
        },
        ClientMessage::PlayerMovementInput { player_id, direction } => {
            assert(s[0] == 5u8);
            assert(s[1] == player_id);
            assert(s.subrange(2, 3) =~= enc_direction(direction));
            lemma_rd_direction_at(s, 2, direction);
        },
        ClientMessage::NextLevelRequest => {
            assert(s[0] == 6u8);
        },
        ClientMessage::RestartLevel => {
            assert(s[0] == 7u8);
        },
        ClientMessage::UndoLevel => {
            assert(s[0] == 8u8);
        },
        ClientMessage::ChangeLevelCheat(ix) => {
            lemma_enc_usize_len(ix.0);
            assert(s[0] == 9u8);
            assert(s.subrange(1, 9) =~= enc_index(ix));
            lemma_rd_index_at(s, 1, ix);
        },
    }
}

proof fn lemma_server_rt_full_state(f: FullGameState)
    ensures
        spec_decode_server(spec_encode_server(ServerMessageV::FullStateSync(f))) == Some(
            ServerMessageV::FullStateSync(f),
        ),
{
    let s = spec_encode_server(ServerMessageV::FullStateSync(f));
    lemma_enc_full_len(f);
    assert(s[0] == 1u8);
    assert(s.subrange(1, 78) =~= enc_full_state(f));
    lemma_rd_full_at(s, 1, f);
}

proof fn lemma_server_rt_selection_update(
    player1_choice: Option<CharacterType>,
    player2_choice: Option<CharacterType>,
)
    ensures
        spec_decode_server(
            spec_encode_server(
                ServerMessageV::CharacterSelectionUpdate { player1_choice, player2_choice },
            ),
        ) == Some(ServerMessageV::CharacterSelectionUpdate { player1_choice, player2_choice }),
{
    let s = spec_encode_server(
        ServerMessageV::CharacterSelectionUpdate { player1_choice, player2_choice },
    );
    let l1 = enc_opt_character(player1_choice).len() as int;
    let l2 = enc_opt_character(player2_choice).len() as int;
    assert(s[0] == 3u8);
    assert(s.subrange(1, 1 + l1) =~= enc_opt_character(player1_choice));
    lemma_rd_opt_character_at(s, 1, player1_choice);
    assert(s.subrange(1 + l1, 1 + l1 + l2) =~= enc_opt_character(player2_choice));
    lemma_rd_opt_character_at(s, 1 + l1, player2_choice);
}

proof fn lemma_server_rt_undo(g: Seq<Seq<char>>)
    requires
        grid_wf(g),
    ensures
        spec_decode_server(spec_encode_server(ServerMessageV::DoUndoLevel(g))) == Some(
            ServerMessageV::DoUndoLevel(g),
        ),
{
    let s = spec_encode_server(ServerMessageV::DoUndoLevel(g));
    assert(s[0] == 8u8);
    assert(s.subrange(1, 1 + enc_grid(g).len() as int) =~= enc_grid(g));
    lemma_rd_grid_at(s, 1, g);
}

/// Every well-formed server message survives the round trip through its
/// bytes; every message built from real vectors is well-formed.
pub proof fn lemma_server_round_trip(m: ServerMessageV)
    requires
        server_msg_wf(m),
    ensures
        spec_decode_server(spec_encode_server(m)) == Some(m),
{
    let s = spec_encode_server(m);
    match m {
        ServerMessageV::StateChangeNotification(g) => {
            assert(s[0] == 0u8);
            assert(s.subrange(1, 2) =~= enc_game_state(g));
            lemma_rd_game_state_at(s, 1, g);
        },
        ServerMessageV::FullStateSync(f) => {
            lemma_server_rt_full_state(f);
        },
        ServerMessageV::PlayerPositionUpdate { player_id, position } => {
            lemma_enc_world_len(position);
            assert(s[0] == 2u8);
            assert(s[1] == player_id);
            assert(s.subrange(2, 14) =~= enc_world(position));
            lemma_rd_world_at(s, 2, position);
        },
        ServerMessageV::CharacterSelectionUpdate { player1_choice, player2_choice } => {
            lemma_server_rt_selection_update(player1_choice, player2_choice);
        },
        ServerMessageV::StartGameWithCharacters { player1_character, player2_character } => {
            assert(s[0] == 4u8);
            assert(s.subrange(1, 2) =~= enc_character(player1_character));
            lemma_rd_character_at(s, 1, player1_character);
            assert(s.subrange(2, 3) =~= enc_character(player2_character));
            lemma_rd_character_at(s, 2, player2_character);
        },
        ServerMessageV::PlayerMovementUpdate { player_id, direction } => {
            assert(s[0] == 5u8);
            assert(s[1] == player_id);
            assert(s.subrange(2, 3) =~= enc_direction(direction));
            lemma_rd_direction_at(s, 2, direction);
        },
        ServerMessageV::NextLevelNotification { level_index } => {
            lemma_enc_usize_len(level_index.0);
            assert(s[0] == 6u8);
            assert(s.subrange(1, 9) =~= enc_index(level_index));
            lemma_rd_index_at(s, 1, level_index);
        },
        ServerMessageV::DoRestartLevel => {
            assert(s[0] == 7u8);
        },
        ServerMessageV::DoUndoLevel(g) => {
            lemma_server_rt_undo(g);
        },
        ServerMessageV::DoChangeLevel(ix) => {
            lemma_enc_usize_len(ix.0);
            assert(s[0] == 9u8);
            assert(s.subrange(1, 9) =~= enc_index(ix));
            lemma_rd_index_at(s, 1, ix);
        },
    }
}


} // verus!
