//! Colours for the slots, as tints of a background colour.
use crate::color;
use vstd::prelude::*;
use vstd::utf8::encode_utf8;

verus! {

/// How much each tint adds to red, green and blue: red, green, yellow, blue,
/// magenta, cyan, orange, purple.
pub open spec fn tints() -> Seq<(int, int, int)> {
    seq![
        (16, 0, 0),
        (0, 16, 0),
        (16, 12, 0),
        (0, 4, 16),
        (16, 0, 16),
        (0, 12, 16),
        (16, 6, 0),
        (6, 0, 16),
    ]
}

/// The `k`-th tint of the background `base`.
pub open spec fn tinted(base: Seq<char>, k: int) -> (u8, u8, u8) {
    let (r, g, b) = tints()[k];
    color::tint_of(encode_utf8(base), r, g, b)
}

/// The tints of the background `base`, as they are written.
pub open spec fn palette_of(base: Seq<char>) -> Seq<Seq<char>> {
    Seq::new(8, |k: int| color::hex_of(tinted(base, k)))
}

/// The name of the colour of a slot, from 1 to 4.
pub open spec fn slot_color_name(slot: usize) -> Seq<char> {
    if slot == 1 {
        "red"@
    } else if slot == 2 {
        "green"@
    } else if slot == 3 {
        "yellow"@
    } else {
        "blue"@
    }
}

/// The tints of one background colour.
#[derive(Debug)]
pub struct Palette {
    colors: Vec<String>,
}

impl View for Palette {
    type V = Seq<Seq<char>>;

    closed spec fn view(&self) -> Seq<Seq<char>> {
        self.colors@.map_values(|s: String| s@)
    }
}

impl Palette {
    #[verifier::type_invariant]
    spec fn holds_all_tints(self) -> bool {
        self.colors@.len() == 8
    }

    pub fn new(base_bg: &str) -> (r: Self)
        requires
            color::well_divided(encode_utf8(base_bg@)),
        ensures
            r@ == palette_of(base_bg@),
    {
        let mut colors: Vec<String> = Vec::new();
        colors.push(color::tint_color(base_bg, 16, 0, 0));
        colors.push(color::tint_color(base_bg, 0, 16, 0));
        colors.push(color::tint_color(base_bg, 16, 12, 0));
        colors.push(color::tint_color(base_bg, 0, 4, 16));
        colors.push(color::tint_color(base_bg, 16, 0, 16));
        colors.push(color::tint_color(base_bg, 0, 12, 16));
        colors.push(color::tint_color(base_bg, 16, 6, 0));
        colors.push(color::tint_color(base_bg, 6, 0, 16));
        let r = Palette { colors };
        assert(r@ =~= palette_of(base_bg@));
        r
    }

    /// The name and the colour of a slot, from 1 to 4.
    pub fn get_slot_color(&self, slot: usize) -> (r: Option<(&str, &str)>)
        ensures
            r is Some <==> 1 <= slot <= 4,
            r matches Some((name, hex)) ==> name@ == slot_color_name(slot) && hex@ == self@[slot
                - 1],
    {
        proof {
            use_type_invariant(self);
        }
        if slot == 0 || slot > 4 {
            return None;
        }
        let name = if slot == 1 {
            "red"
        } else if slot == 2 {
            "green"
        } else if slot == 3 {
            "yellow"
        } else {
            "blue"
        };
        Some((name, self.colors[slot - 1].as_str()))
    }

    /// The colour of a slot, from 1 to 8.
    pub fn tint(&self, slot: usize) -> (r: Option<&str>)
        ensures
            r is Some <==> 1 <= slot <= 8,
            r matches Some(hex) ==> hex@ == self@[slot - 1],
    {
        proof {
            use_type_invariant(self);
        }
        if slot == 0 || slot > 8 {
            return None;
        }
        Some(self.colors[slot - 1].as_str())
    }
}

/// The eight slots have eight different colours, unless the background is so bright
/// that the tints that tell two of them apart have no room left.
pub proof fn lemma_slot_colors_differ(base: Seq<char>)
    ensures
        ({
            let (r, g, b) = color::rgb_or_base(encode_utf8(base));
            let p = palette_of(base);
            r < 249 && g < 249 && b < 255 <==> (forall|i: int, j: int|
                0 <= i < j < 8 ==> #[trigger] p[i] != #[trigger] p[j])
        }),
{
    let (r, g, b) = color::rgb_or_base(encode_utf8(base));
    let p = palette_of(base);
    if r < 249 && g < 249 && b < 255 {
        assert forall|i: int, j: int| 0 <= i < j < 8 implies #[trigger] p[i] != #[trigger] p[j] by {
            lemma_tints_differ((r, g, b), tints()[i], tints()[j]);
            color::lemma_hex_reads_back(tinted(base, i));
            color::lemma_hex_reads_back(tinted(base, j));
        }
    }
    // Red and magenta, yellow and orange, magenta and purple are closest.
    if forall|i: int, j: int| 0 <= i < j < 8 ==> #[trigger] p[i] != #[trigger] p[j] {
        assert(p[0] != p[4]);
        assert(p[2] != p[6]);
        assert(p[4] != p[7]);
        assert(tinted(base, 0) != tinted(base, 4));
        assert(tinted(base, 2) != tinted(base, 6));
        assert(tinted(base, 4) != tinted(base, 7));
    }
}

/// Where there is room, tints that differ make colours that differ.
proof fn lemma_tints_differ(c: (u8, u8, u8), s: (int, int, int), t: (int, int, int))
    requires
        c.0 < 249,
        c.1 < 249,
        c.2 < 255,
        s != t,
        s.0 == 0 || s.0 == 6 || s.0 == 16,
        t.0 == 0 || t.0 == 6 || t.0 == 16,
        s.1 == 0 || s.1 == 4 || s.1 == 6 || s.1 == 12 || s.1 == 16,
        t.1 == 0 || t.1 == 4 || t.1 == 6 || t.1 == 12 || t.1 == 16,
        s.2 == 0 || s.2 == 16,
        t.2 == 0 || t.2 == 16,
        // Of two tints that share red and blue, one adds at most 6 to green.
        s.0 == t.0 && s.2 == t.2 ==> s.1 <= 6 || t.1 <= 6,
    ensures
        (color::shifted(c.0, s.0), color::shifted(c.1, s.1), color::shifted(c.2, s.2)) != (
            color::shifted(c.0, t.0),
            color::shifted(c.1, t.1),
            color::shifted(c.2, t.2),
        ),
{
}

/// Every slot colour can be read back.
pub proof fn lemma_slot_colors_read_back(base: Seq<char>, k: int)
    requires
        0 <= k < 8,
    ensures
        color::rgb_of(encode_utf8(palette_of(base)[k])) == Some(tinted(base, k)),
        color::well_divided(encode_utf8(palette_of(base)[k])),
{
    color::lemma_hex_reads_back(tinted(base, k));
}

/// The colour of a slot is the background with the slot's own tint added to it, as far
/// as there is room.
pub proof fn lemma_slot_colors_are_tints(base: Seq<char>, k: int)
    requires
        0 <= k < 8,
    ensures
        ({
            let c = color::rgb_or_base(encode_utf8(base));
            let t = color::rgb_of(encode_utf8(palette_of(base)[k]))->0;
            let (r, g, b) = tints()[k];
            &&& color::rgb_of(encode_utf8(palette_of(base)[k])) is Some
            &&& c.0 + r <= 255 ==> t.0 == c.0 + r
            &&& c.1 + g <= 255 ==> t.1 == c.1 + g
            &&& c.2 + b <= 255 ==> t.2 == c.2 + b
            &&& c.0 + r > 255 ==> t.0 == 255
            &&& c.1 + g > 255 ==> t.1 == 255
            &&& c.2 + b > 255 ==> t.2 == 255
        }),
{
    let (r, g, b) = tints()[k];
    lemma_slot_colors_read_back(base, k);
    color::lemma_tints_move_channels(encode_utf8(base), r, g, b);
}

} // verus!
