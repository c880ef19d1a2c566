//! What the menus and the HUD share: the palette and how room codes are written.

use vstd::prelude::*;
use vstd::string::*;
use vstd::utf8::encode_utf8;

verus! {

/// A colour of the TF2 palette.
#[derive(Clone, Copy, Debug, PartialEq, Eq, Structural)]
pub enum Tint {
    TanLight,
    TanDark,
    OffWhite,
    Orange,
    LightRed,
    RedTeam,
    BluTeam,
    Yellow,
    White,
    Grey,
    DeathRed,
}

/// A code shown one glyph at a time, with `_` for what is missing.
pub open spec fn spaced(code: Seq<char>, n: nat) -> Seq<char>
    decreases n,
{
    if n == 0 {
        Seq::empty()
    } else {
        let bytes = encode_utf8(code);
        let glyph = if n <= bytes.len() {
            bytes[n - 1] as char
        } else {
            '_'
        };
        let before = spaced(code, (n - 1) as nat);
        if n == 1 {
            before.push(glyph)
        } else {
            before.push(' ').push(glyph)
        }
    }
}

/// Room codes are shown one glyph at a time: `A B C _ _ _`.
pub fn code_display(code: &str, len: usize) -> (r: String)
    ensures
        r@ == spaced(code@, len as nat),
{
    let bytes = code.as_bytes();
    let mut out = String::new();
    let mut i: usize = 0;
    proof {
        assert(out@ =~= Seq::<char>::empty());
    }
    while i < len
        invariant
            i <= len,
            bytes@ == encode_utf8(code@),
            out@ == spaced(code@, i as nat),
        decreases len - i,
    {
        if i > 0 {
            out.push(' ');
        }
        out.push(
            if i < bytes.len() {
                bytes[i] as char
            } else {
                '_'
            },
        );
        i = i + 1;
    }
    out
}

/// A room code is shown with a space between its places, and a dash in each place that is not typed
/// yet.
pub proof fn law_how_a_code_is_shown(code: Seq<char>, n: nat)
    ensures
        n > 0 ==> spaced(code, n).len() == 2 * n - 1,
        forall|i: int|
            #![trigger encode_utf8(code)[i]]
            0 <= i < n && i < encode_utf8(code).len() ==> spaced(code, n)[2 * i] == encode_utf8(
                code,
            )[i] as char,
        forall|i: int|
            encode_utf8(code).len() <= i < n ==> #[trigger] spaced(code, n)[2 * i] == '_',
        forall|i: int| 0 <= i < n - 1 ==> #[trigger] spaced(code, n)[2 * i + 1] == ' ',
    decreases n,
{
    if n > 0 {
        let m = (n - 1) as nat;
        law_how_a_code_is_shown(code, m);
        let before = spaced(code, m);
        let all = spaced(code, n);
        if n > 1 {
            assert(before.len() == 2 * m - 1);
            assert forall|i: int|
                #![trigger encode_utf8(code)[i]]
                0 <= i < n && i < encode_utf8(code).len() implies all[2 * i] == encode_utf8(
                code,
            )[i] as char by {
                if i < m {
                    assert(all[2 * i] == before[2 * i]);
                }
            }
            assert forall|i: int| encode_utf8(code).len() <= i < n implies #[trigger] all[2 * i]
                == '_' by {
                if i < m {
                    assert(all[2 * i] == before[2 * i]);
                }
            }
            assert forall|i: int| 0 <= i < n - 1 implies #[trigger] all[2 * i + 1] == ' ' by {
                if i < m - 1 {
                    assert(all[2 * i + 1] == before[2 * i + 1]);
                }
            }
        }
    }
}

} // verus!
