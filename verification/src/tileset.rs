use vstd::prelude::*;

use crate::text::{
    chars_of, lower_starts_with, range_equals, range_lower_starts_with, trim_bounds, trim_end,
    trim_start, trimmed,
};

verus! {

/// The tilesets that a solid collision rectangle can be drawn with.
#[derive(Clone, Copy, Debug, PartialEq, Eq, Structural)]
pub enum TilesetArtTag {
    Dirt,
    Grass,
    Snow,
    TempleA,
    TempleB,
    Girder,
}

/// How many tilesets there are.
pub const TILESET_ART_TAG_COUNT: usize = 6;

/// The name of a tileset as it is written in a map file.
pub open spec fn tag_name(tag: TilesetArtTag) -> Seq<char> {
    match tag {
        TilesetArtTag::Dirt => seq!['d', 'i', 'r', 't'],
        TilesetArtTag::Grass => seq!['g', 'r', 'a', 's', 's'],
        TilesetArtTag::Snow => seq!['s', 'n', 'o', 'w'],
        TilesetArtTag::TempleA => seq!['t', 'e', 'm', 'p', 'l', 'e', 'A'],
        TilesetArtTag::TempleB => seq!['t', 'e', 'm', 'p', 'l', 'e', 'B'],
        TilesetArtTag::Girder => seq!['g', 'i', 'r', 'd', 'e', 'r'],
    }
}

/// The position of a tileset in the editor's cycling order.
pub open spec fn tag_index(tag: TilesetArtTag) -> int {
    match tag {
        TilesetArtTag::Dirt => 0,
        TilesetArtTag::Grass => 1,
        TilesetArtTag::Snow => 2,
        TilesetArtTag::TempleA => 3,
        TilesetArtTag::TempleB => 4,
        TilesetArtTag::Girder => 5,
    }
}

/// The tileset at a position of the cycling order.
pub open spec fn tag_at(index: int) -> TilesetArtTag {
    if index == 0 {
        TilesetArtTag::Dirt
    } else if index == 1 {
        TilesetArtTag::Grass
    } else if index == 2 {
        TilesetArtTag::Snow
    } else if index == 3 {
        TilesetArtTag::TempleA
    } else if index == 4 {
        TilesetArtTag::TempleB
    } else {
        TilesetArtTag::Girder
    }
}

/// The tileset whose name is exactly `t`, if any.
pub open spec fn exact_tag(t: Seq<char>) -> Option<TilesetArtTag> {
    if t == tag_name(TilesetArtTag::Dirt) {
        Some(TilesetArtTag::Dirt)
    } else if t == tag_name(TilesetArtTag::Grass) {
        Some(TilesetArtTag::Grass)
    } else if t == tag_name(TilesetArtTag::Snow) {
        Some(TilesetArtTag::Snow)
    } else if t == tag_name(TilesetArtTag::TempleA) {
        Some(TilesetArtTag::TempleA)
    } else if t == tag_name(TilesetArtTag::TempleB) {
        Some(TilesetArtTag::TempleB)
    } else if t == tag_name(TilesetArtTag::Girder) {
        Some(TilesetArtTag::Girder)
    } else {
        None
    }
}

/// The tileset that an art tag stands for: the tag is trimmed; an exact
/// tileset name stands for itself; otherwise legacy spellings are recognised
/// by a case-insensitive prefix, tried in the order snow, temple_a/templea,
/// temple_b/templeb, grass, dirt, girder.
pub open spec fn normalized_tag(s: Seq<char>) -> Option<TilesetArtTag> {
    let t = trimmed(s);
    if exact_tag(t) is Some {
        exact_tag(t)
    } else if lower_starts_with(t, seq!['s', 'n', 'o', 'w']) {
        Some(TilesetArtTag::Snow)
    } else if lower_starts_with(t, seq!['t', 'e', 'm', 'p', 'l', 'e', '_', 'a'])
        || lower_starts_with(t, seq!['t', 'e', 'm', 'p', 'l', 'e', 'a']) {
        Some(TilesetArtTag::TempleA)
    } else if lower_starts_with(t, seq!['t', 'e', 'm', 'p', 'l', 'e', '_', 'b'])
        || lower_starts_with(t, seq!['t', 'e', 'm', 'p', 'l', 'e', 'b']) {
        Some(TilesetArtTag::TempleB)
    } else if lower_starts_with(t, seq!['g', 'r', 'a', 's', 's']) {
        Some(TilesetArtTag::Grass)
    } else if lower_starts_with(t, seq!['d', 'i', 'r', 't']) {
        Some(TilesetArtTag::Dirt)
    } else if lower_starts_with(t, seq!['g', 'i', 'r', 'd', 'e', 'r']) {
        Some(TilesetArtTag::Girder)
    } else {
        None
    }
}

/// The tileset that the editor moves to from `s`: the one after the tileset
/// `s` stands for, or after dirt where `s` stands for none, wrapping round.
pub open spec fn next_tag_after(s: Seq<char>) -> TilesetArtTag {
    let current = match normalized_tag(s) {
        Some(tag) => tag,
        None => TilesetArtTag::Dirt,
    };
    tag_at((tag_index(current) + 1) % 6)
}

impl TilesetArtTag {
    /// The tileset's name as written in a map file.
    pub fn as_str(self) -> (res: &'static str)
        ensures
            res@ == tag_name(self),
    {
        match self {
            TilesetArtTag::Dirt => {
                proof {
                    reveal_strlit("dirt");
                }
                let r = "dirt";
                assert(r@ =~= tag_name(self));
                r
            },
            TilesetArtTag::Grass => {
                proof {
                    reveal_strlit("grass");
                }
                let r = "grass";
                assert(r@ =~= tag_name(self));
                r
            },
            TilesetArtTag::Snow => {
                proof {
                    reveal_strlit("snow");
                }
                let r = "snow";
                assert(r@ =~= tag_name(self));
                r
            },
            TilesetArtTag::TempleA => {
                proof {
                    reveal_strlit("templeA");
                }
                let r = "templeA";
                assert(r@ =~= tag_name(self));
                r
            },
            TilesetArtTag::TempleB => {
                proof {
                    reveal_strlit("templeB");
                }
                let r = "templeB";
                assert(r@ =~= tag_name(self));
                r
            },
            TilesetArtTag::Girder => {
                proof {
                    reveal_strlit("girder");
                }
                let r = "girder";
                assert(r@ =~= tag_name(self));
                r
            },
        }
    }

    /// The tileset's position in the cycling order.
    pub fn index(self) -> (res: usize)
        ensures
            res == tag_index(self),
    {
        match self {
            TilesetArtTag::Dirt => 0,
            TilesetArtTag::Grass => 1,
            TilesetArtTag::Snow => 2,
            TilesetArtTag::TempleA => 3,
            TilesetArtTag::TempleB => 4,
            TilesetArtTag::Girder => 5,
        }
    }

    /// The tileset at a position of the cycling order.
    pub fn at(index: usize) -> (res: TilesetArtTag)
        requires
            index < TILESET_ART_TAG_COUNT,
        ensures
            res == tag_at(index as int),
    {
        if index == 0 {
            TilesetArtTag::Dirt
        } else if index == 1 {
            TilesetArtTag::Grass
        } else if index == 2 {
            TilesetArtTag::Snow
        } else if index == 3 {
            TilesetArtTag::TempleA
        } else if index == 4 {
            TilesetArtTag::TempleB
        } else {
            TilesetArtTag::Girder
        }
    }
}

/// The tileset that an art tag stands for (see `normalized_tag`).
pub fn normalize_tileset_art_tag_kind(art_tag: &str) -> (res: Option<TilesetArtTag>)
    ensures
        res == normalized_tag(art_tag@),
{
    let chars = chars_of(art_tag);
    let (start, end) = trim_bounds(&chars);
    let ghost t = trimmed(art_tag@);
    let dirt = vec!['d', 'i', 'r', 't'];
    let grass = vec!['g', 'r', 'a', 's', 's'];
    let snow = vec!['s', 'n', 'o', 'w'];
    let temple_a = vec!['t', 'e', 'm', 'p', 'l', 'e', 'A'];
    let temple_b = vec!['t', 'e', 'm', 'p', 'l', 'e', 'B'];
    let girder = vec!['g', 'i', 'r', 'd', 'e', 'r'];
    assert(dirt@ =~= tag_name(TilesetArtTag::Dirt));
    assert(grass@ =~= tag_name(TilesetArtTag::Grass));
    assert(snow@ =~= tag_name(TilesetArtTag::Snow));
    assert(temple_a@ =~= tag_name(TilesetArtTag::TempleA));
    assert(temple_b@ =~= tag_name(TilesetArtTag::TempleB));
    assert(girder@ =~= tag_name(TilesetArtTag::Girder));
    if range_equals(&chars, start, end, &dirt) {
        return Some(TilesetArtTag::Dirt);
    }
    if range_equals(&chars, start, end, &grass) {
        return Some(TilesetArtTag::Grass);
    }
    if range_equals(&chars, start, end, &snow) {
        return Some(TilesetArtTag::Snow);
    }
    if range_equals(&chars, start, end, &temple_a) {
        return Some(TilesetArtTag::TempleA);
    }
    if range_equals(&chars, start, end, &temple_b) {
        return Some(TilesetArtTag::TempleB);
    }
    if range_equals(&chars, start, end, &girder) {
        return Some(TilesetArtTag::Girder);
    }
    assert(exact_tag(t) is None);
    let temple_a_underscore = vec!['t', 'e', 'm', 'p', 'l', 'e', '_', 'a'];
    let temple_a_plain = vec!['t', 'e', 'm', 'p', 'l', 'e', 'a'];
    let temple_b_underscore = vec!['t', 'e', 'm', 'p', 'l', 'e', '_', 'b'];
    let temple_b_plain = vec!['t', 'e', 'm', 'p', 'l', 'e', 'b'];
    assert(temple_a_underscore@ =~= seq!['t', 'e', 'm', 'p', 'l', 'e', '_', 'a']);
    assert(temple_a_plain@ =~= seq!['t', 'e', 'm', 'p', 'l', 'e', 'a']);
    assert(temple_b_underscore@ =~= seq!['t', 'e', 'm', 'p', 'l', 'e', '_', 'b']);
    assert(temple_b_plain@ =~= seq!['t', 'e', 'm', 'p', 'l', 'e', 'b']);
    if range_lower_starts_with(&chars, start, end, &snow) {
        Some(TilesetArtTag::Snow)
    } else if range_lower_starts_with(&chars, start, end, &temple_a_underscore)
        || range_lower_starts_with(&chars, start, end, &temple_a_plain) {
        Some(TilesetArtTag::TempleA)
    } else if range_lower_starts_with(&chars, start, end, &temple_b_underscore)
        || range_lower_starts_with(&chars, start, end, &temple_b_plain) {
        Some(TilesetArtTag::TempleB)
    } else if range_lower_starts_with(&chars, start, end, &grass) {
        Some(TilesetArtTag::Grass)
    } else if range_lower_starts_with(&chars, start, end, &dirt) {
        Some(TilesetArtTag::Dirt)
    } else if range_lower_starts_with(&chars, start, end, &girder) {
        Some(TilesetArtTag::Girder)
    } else {
        None
    }
}

/// The canonical name of the tileset that an art tag stands for, or `None`
/// when it stands for none.
pub fn normalize_tileset_art_tag(art_tag: &str) -> (res: Option<&'static str>)
    ensures
        res is Some <==> normalized_tag(art_tag@) is Some,
        res matches Some(name) ==> name@ == tag_name(normalized_tag(art_tag@)->0),
{
    match normalize_tileset_art_tag_kind(art_tag) {
        Some(tag) => Some(tag.as_str()),
        None => None,
    }
}

/// Whether an art tag stands for one of the tilesets.
pub fn is_valid_tileset_art_tag(art_tag: &str) -> (res: bool)
    ensures
        res == (normalized_tag(art_tag@) is Some),
{
    normalize_tileset_art_tag_kind(art_tag).is_some()
}

/// The tileset that the editor's tileset key moves to from `current`.
pub fn next_tileset_art_tag(current: &str) -> (res: &'static str)
    ensures
        res@ == tag_name(next_tag_after(current@)),
{
    let tag = match normalize_tileset_art_tag_kind(current) {
        Some(tag) => tag,
        None => TilesetArtTag::Dirt,
    };
    TilesetArtTag::at((tag.index() + 1) % TILESET_ART_TAG_COUNT).as_str()
}


/// The tileset reached from `tag` after pressing the tileset key `steps`
/// times.
pub open spec fn tag_after_steps(tag: TilesetArtTag, steps: nat) -> TilesetArtTag
    decreases steps,
{
    if steps == 0 {
        tag
    } else {
        tag_after_steps(next_tag_after(tag_name(tag)), (steps - 1) as nat)
    }
}

proof fn lemma_name_stands_for_itself(tag: TilesetArtTag)
    ensures
        trimmed(tag_name(tag)) == tag_name(tag),
        normalized_tag(tag_name(tag)) == Some(tag),
{
    let n = tag_name(tag);
    assert(trim_start(n) == n);
    assert(trim_end(n) == n);
}

/// Normalising an art tag twice gives what normalising it once gave: the
/// canonical name of a tileset stands for that same tileset.
pub proof fn lemma_normalize_idempotent(s: Seq<char>)
    requires
        normalized_tag(s) is Some,
    ensures
        normalized_tag(tag_name(normalized_tag(s)->0)) == normalized_tag(s),
{
    lemma_name_stands_for_itself(normalized_tag(s)->0);
}

/// The tileset key walks through the tilesets in order: each press moves to
/// the next one, six presses come back to where they started, and fewer
/// presses never do.
pub proof fn lemma_next_tag_cycles(tag: TilesetArtTag)
    ensures
        tag_index(next_tag_after(tag_name(tag))) == (tag_index(tag) + 1) % 6,
        tag_after_steps(tag, 6) == tag,
        forall|k: nat| 1 <= k < 6 ==> tag_after_steps(tag, k) != tag,
{
    lemma_name_stands_for_itself(TilesetArtTag::Dirt);
    lemma_name_stands_for_itself(TilesetArtTag::Grass);
    lemma_name_stands_for_itself(TilesetArtTag::Snow);
    lemma_name_stands_for_itself(TilesetArtTag::TempleA);
    lemma_name_stands_for_itself(TilesetArtTag::TempleB);
    lemma_name_stands_for_itself(TilesetArtTag::Girder);
    reveal_with_fuel(tag_after_steps, 7);
    assert forall|k: nat| 1 <= k < 6 implies tag_after_steps(tag, k) != tag by {
        reveal_with_fuel(tag_after_steps, 7);
    }
}

} // verus!
