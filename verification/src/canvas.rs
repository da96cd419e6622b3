//! The drawing canvas, its dots and the metadata of an artwork.

use vstd::prelude::*;
use crate::shared;
use crate::shared::{Color, Coordinates, Timestamp};
use crate::text::ViewEq;

verus! {

broadcast use vstd::seq_lib::group_seq_properties;

/// Descriptive data of an artwork.
#[derive(Debug, Clone)]
pub struct ArtworkMetadata {
    pub name: String,
    pub description: Option<String>,
    pub tags: Vec<String>,
    pub author: Option<String>,
    pub original_filename: Option<String>,
    pub file_size: u64,
    pub checksum: String,
}

/// The characters of each tag, in order.
pub open spec fn tag_texts(tags: Seq<String>) -> Seq<Seq<char>> {
    tags.map_values(|t: String| t@)
}

impl ArtworkMetadata {
    /// Metadata with a name and nothing else.
    pub fn new(name: String) -> (m: Self)
        ensures
            m.name == name,
            m.description is None,
            m.tags@.len() == 0,
            m.author is None,
            m.original_filename is None,
            m.file_size == 0,
            m.checksum@.len() == 0,
    {
        ArtworkMetadata {
            name,
            description: None,
            tags: Vec::new(),
            author: None,
            original_filename: None,
            file_size: 0,
            checksum: String::new(),
        }
    }

    pub fn with_description(self, description: String) -> (m: Self)
        ensures
            m.description == Some(description),
            m.name == self.name,
            m.tags@ == self.tags@,
            m.author == self.author,
    {
        let mut m = self;
        m.description = Some(description);
        m
    }

    pub fn with_tags(self, tags: Vec<String>) -> (m: Self)
        ensures
            m.tags@ == tags@,
            m.name == self.name,
            m.description == self.description,
            m.author == self.author,
    {
        let mut m = self;
        m.tags = tags;
        m
    }

    pub fn with_author(self, author: String) -> (m: Self)
        ensures
            m.author == Some(author),
            m.name == self.name,
            m.description == self.description,
            m.tags@ == self.tags@,
    {
        let mut m = self;
        m.author = Some(author);
        m
    }

    /// Whether a tag with the text of `tag` is present.
    pub fn has_tag(&self, tag: &str) -> (r: bool)
        ensures
            r == tag_texts(self.tags@).contains(tag@),
    {
        let mut i: usize = 0;
        while i < self.tags.len()
            invariant
                i <= self.tags@.len(),
                forall|j: int| 0 <= j < i ==> self.tags@[j]@ != tag@,
            decreases self.tags@.len() - i,
        {
            if self.tags[i].as_str().view_eq(tag) {
                assert(tag_texts(self.tags@)[i as int] == tag@);
                return true;
            }
            i = i + 1;
        }
        assert(!tag_texts(self.tags@).contains(tag@)) by {
            if tag_texts(self.tags@).contains(tag@) {
                let k = choose|k: int| 0 <= k < tag_texts(self.tags@).len() && tag_texts(self.tags@)[k] == tag@;
                assert(self.tags@[k]@ == tag@);
            }
        }
        false
    }

    /// Adds `tag` unless a tag with the same text is present.
    pub fn add_tag(&mut self, tag: String)
        ensures
            tag_texts(old(self).tags@).contains(tag@) ==> final(self).tags@ == old(self).tags@,
            !tag_texts(old(self).tags@).contains(tag@) ==> final(self).tags@ == old(self).tags@.push(tag),
            final(self).name == old(self).name,
            final(self).description == old(self).description,
            final(self).author == old(self).author,
            final(self).original_filename == old(self).original_filename,
            final(self).file_size == old(self).file_size,
            final(self).checksum == old(self).checksum,
    {
        if !self.has_tag(tag.as_str()) {
            self.tags.push(tag);
        }
    }

    /// Removes every tag with the text of `tag`, keeping the others in order.
    pub fn remove_tag(&mut self, tag: &str)
        ensures
            tag_texts(final(self).tags@) == tag_texts(old(self).tags@).filter(|t: Seq<char>| t != tag@),
            final(self).name == old(self).name,
            final(self).description == old(self).description,
            final(self).author == old(self).author,
            final(self).original_filename == old(self).original_filename,
            final(self).file_size == old(self).file_size,
            final(self).checksum == old(self).checksum,
    {
        let mut kept: Vec<String> = Vec::new();
        let mut old_tags: Vec<String> = Vec::new();
        core::mem::swap(&mut old_tags, &mut self.tags);
        let mut i: usize = 0;
        while i < old_tags.len()
            invariant
                i <= old_tags@.len(),
                old_tags@ == old(self).tags@,
                tag_texts(kept@) == tag_texts(old_tags@.take(i as int)).filter(|t: Seq<char>| t != tag@),
            decreases old_tags@.len() - i,
        {
            assert(tag_texts(old_tags@.take(i + 1)).drop_last() =~= tag_texts(old_tags@.take(i as int)));
            assert(tag_texts(old_tags@.take(i + 1)).last() == old_tags@[i as int]@);
            reveal_with_fuel(Seq::filter, 1);
            let ghost prev = tag_texts(old_tags@.take(i as int)).filter(|t: Seq<char>| t != tag@);
            assert(tag_texts(old_tags@.take(i + 1)).filter(|t: Seq<char>| t != tag@) == (if old_tags@[i as int]@ != tag@ {
                prev.push(old_tags@[i as int]@)
            } else {
                prev
            }));
            let same = old_tags[i].as_str().view_eq(tag);
            if !same {
                let ghost before = kept@;
                kept.push(old_tags[i].clone());
                assert(tag_texts(kept@) =~= tag_texts(before).push(old_tags@[i as int]@));
            }
            i = i + 1;
        }
        assert(old_tags@.take(i as int) =~= old_tags@);
        self.tags = kept;
    }
}

/// One dot of a canvas.
#[derive(Debug, Clone, Copy, PartialEq, Eq, Structural)]
pub struct Dot {
    pub color: Color,
    pub opacity: u8,
    pub is_painted: bool,
    pub created_at: Timestamp,
    pub painted_at: Option<Timestamp>,
    pub layer: u8,
}

/// Whether a dot still has to be painted: visible and not painted yet.
pub open spec fn drawable(d: Dot) -> bool {
    d.opacity > 0 && !d.is_painted
}

impl Dot {
    /// A new unpainted dot on layer 0, created now.
    pub fn new(color: Color, opacity: u8) -> (d: Self)
        ensures
            d.color == color,
            d.opacity == opacity,
            !d.is_painted,
            d.painted_at is None,
            d.layer == 0,
    {
        Dot { color, opacity, is_painted: false, created_at: Timestamp::now(), painted_at: None, layer: 0 }
    }

    /// A new unpainted dot on `layer`, created now.
    pub fn with_layer(color: Color, opacity: u8, layer: u8) -> (d: Self)
        ensures
            d.color == color,
            d.opacity == opacity,
            !d.is_painted,
            d.painted_at is None,
            d.layer == layer,
    {
        Dot { color, opacity, is_painted: false, created_at: Timestamp::now(), painted_at: None, layer }
    }

    /// An opaque black dot.
    pub fn black() -> (d: Self)
        ensures
            d.color == (Color { r: 0, g: 0, b: 0, a: 255 }),
            d.opacity == 255,
            !d.is_painted,
            d.painted_at is None,
            d.layer == 0,
    {
        Self::new(Color::black(), 255)
    }

    /// An opaque white dot.
    pub fn white() -> (d: Self)
        ensures
            d.color == (Color { r: 255, g: 255, b: 255, a: 255 }),
            d.opacity == 255,
            !d.is_painted,
            d.painted_at is None,
            d.layer == 0,
    {
        Self::new(Color::white(), 255)
    }

    /// An invisible (white, opacity 0) dot.
    pub fn transparent() -> (d: Self)
        ensures
            d.color == (Color { r: 255, g: 255, b: 255, a: 255 }),
            d.opacity == 0,
            !d.is_painted,
            d.painted_at is None,
            d.layer == 0,
    {
        Self::new(Color::white(), 0)
    }

    pub fn is_drawable(&self) -> (r: bool)
        ensures
            r == drawable(*self),
    {
        self.opacity > 0 && !self.is_painted
    }

    pub fn is_visible(&self) -> (r: bool)
        ensures
            r == (self.opacity > 0),
    {
        self.opacity > 0
    }

    /// Marks the dot painted, stamped with the current time.
    pub fn mark_as_painted(&mut self)
        ensures
            final(self).is_painted,
            final(self).painted_at is Some,
            final(self).color == old(self).color,
            final(self).opacity == old(self).opacity,
            final(self).created_at == old(self).created_at,
            final(self).layer == old(self).layer,
    {
        self.is_painted = true;
        self.painted_at = Some(Timestamp::now());
    }

    /// Back to unpainted.
    pub fn reset_paint_status(&mut self)
        ensures
            *final(self) == (Dot { is_painted: false, painted_at: None, ..*old(self) }),
    {
        self.is_painted = false;
        self.painted_at = None;
    }

    /// Milliseconds since the dot was created.
    pub fn age_millis(&self) -> u64 {
        self.created_at.elapsed_millis()
    }

    /// Milliseconds since the dot was painted, if it was.
    pub fn painted_age_millis(&self) -> (r: Option<u64>)
        ensures
            r is Some == self.painted_at is Some,
    {
        match self.painted_at {
            Some(t) => Some(t.elapsed_millis()),
            None => None,
        }
    }

    pub fn set_color(&mut self, color: Color)
        ensures
            *final(self) == (Dot { color, ..*old(self) }),
    {
        self.color = color;
    }

    pub fn set_opacity(&mut self, opacity: u8)
        ensures
            *final(self) == (Dot { opacity, ..*old(self) }),
    {
        self.opacity = opacity;
    }
}

/// Why a canvas operation was refused.
#[derive(Debug, Clone, Copy, PartialEq, Eq, Structural)]
pub enum CanvasError {
    OutOfBounds(Coordinates),
    InvalidSize,
}

/// Why an artwork failed validation.
#[derive(Debug, Clone, Copy, PartialEq, Eq, Structural)]
pub enum ArtworkValidationError {
    EmptyName,
    InvalidCanvasSize,
    CanvasTooLarge,
    DotOutOfBounds(Coordinates),
}

/// Whether the entries hold a dot at `c`.
pub open spec fn has_key(s: Seq<(Coordinates, Dot)>, c: Coordinates) -> bool {
    exists|i: int| 0 <= i < s.len() && (#[trigger] s[i]).0 == c
}

/// Whether no coordinates occur twice among the entries.
pub open spec fn keys_unique(s: Seq<(Coordinates, Dot)>) -> bool {
    forall|i: int, j: int| 0 <= i < s.len() && 0 <= j < s.len() && i != j ==> (#[trigger] s[i]).0 != (#[trigger] s[j]).0
}

/// The position of the entry for `c`.
pub open spec fn key_index(s: Seq<(Coordinates, Dot)>, c: Coordinates) -> int {
    choose|i: int| 0 <= i < s.len() && (#[trigger] s[i]).0 == c
}

/// The entries as a map from coordinates to dots.
pub open spec fn dot_map(s: Seq<(Coordinates, Dot)>) -> Map<Coordinates, Dot> {
    Map::new(|c: Coordinates| has_key(s, c), |c: Coordinates| s[key_index(s, c)].1)
}

pub proof fn lemma_key_index(s: Seq<(Coordinates, Dot)>, i: int)
    requires
        keys_unique(s),
        0 <= i < s.len(),
    ensures
        has_key(s, s[i].0),
        key_index(s, s[i].0) == i,
        dot_map(s).contains_key(s[i].0),
        dot_map(s)[s[i].0] == s[i].1,
{
    assert(has_key(s, s[i].0));
    let k = key_index(s, s[i].0);
    assert(s[k].0 == s[i].0);
}

pub proof fn lemma_dot_map_update(s: Seq<(Coordinates, Dot)>, i: int, d: Dot)
    requires
        keys_unique(s),
        0 <= i < s.len(),
    ensures
        keys_unique(s.update(i, (s[i].0, d))),
        dot_map(s.update(i, (s[i].0, d))) == dot_map(s).insert(s[i].0, d),
{
    let t = s.update(i, (s[i].0, d));
    assert(keys_unique(t));
    assert forall|c: Coordinates| has_key(t, c) == has_key(s, c) by {
        if has_key(s, c) {
            let k = key_index(s, c);
            assert(t[k].0 == c);
        }
        if has_key(t, c) {
            let k = key_index(t, c);
            assert(s[k].0 == c);
        }
    }
    assert forall|c: Coordinates| #[trigger] dot_map(t).contains_key(c) implies dot_map(t)[c] == dot_map(s).insert(s[i].0, d)[c] by {
        let k = key_index(t, c);
        lemma_key_index(t, k);
        if k != i {
            assert(s[k] == t[k]);
            lemma_key_index(s, k);
        }
    }
    assert(dot_map(t) =~= dot_map(s).insert(s[i].0, d));
}

pub proof fn lemma_dot_map_push(s: Seq<(Coordinates, Dot)>, c: Coordinates, d: Dot)
    requires
        keys_unique(s),
        !has_key(s, c),
    ensures
        keys_unique(s.push((c, d))),
        dot_map(s.push((c, d))) == dot_map(s).insert(c, d),
{
    let t = s.push((c, d));
    assert forall|i: int, j: int| 0 <= i < t.len() && 0 <= j < t.len() && i != j implies (#[trigger] t[i]).0 != (#[trigger] t[j]).0 by {
        if i < s.len() && j < s.len() {
            assert(t[i] == s[i] && t[j] == s[j]);
        } else if i < s.len() {
            assert(t[i] == s[i]);
        } else {
            assert(t[j] == s[j]);
        }
    }
    assert forall|e: Coordinates| has_key(t, e) == (has_key(s, e) || e == c) by {
        if has_key(s, e) {
            let k = key_index(s, e);
            assert(t[k].0 == e);
        }
        if e == c {
            assert(t[s.len() as int].0 == c);
        }
        if has_key(t, e) && e != c {
            let k = key_index(t, e);
            assert(s[k].0 == e);
        }
    }
    assert forall|e: Coordinates| #[trigger] dot_map(t).contains_key(e) implies dot_map(t)[e] == dot_map(s).insert(c, d)[e] by {
        let k = key_index(t, e);
        lemma_key_index(t, k);
        if k < s.len() {
            assert(s[k] == t[k]);
            lemma_key_index(s, k);
        }
    }
    assert(dot_map(t) =~= dot_map(s).insert(c, d));
}

pub proof fn lemma_dot_map_remove(s: Seq<(Coordinates, Dot)>, i: int)
    requires
        keys_unique(s),
        0 <= i < s.len(),
    ensures
        keys_unique(s.remove(i)),
        dot_map(s.remove(i)) == dot_map(s).remove(s[i].0),
{
    let t = s.remove(i);
    assert forall|a: int, b: int| 0 <= a < t.len() && 0 <= b < t.len() && a != b implies (#[trigger] t[a]).0 != (#[trigger] t[b]).0 by {
        let sa = if a < i { a } else { a + 1 };
        let sb = if b < i { b } else { b + 1 };
        assert(t[a] == s[sa] && t[b] == s[sb]);
    }
    assert forall|e: Coordinates| has_key(t, e) == (has_key(s, e) && e != s[i].0) by {
        if has_key(s, e) && e != s[i].0 {
            let k = key_index(s, e);
            if k < i {
                assert(t[k].0 == e);
            } else {
                assert(t[k - 1].0 == e);
            }
        }
        if has_key(t, e) {
            let k = key_index(t, e);
            let sk = if k < i { k } else { k + 1 };
            assert(s[sk].0 == e);
        }
    }
    assert forall|e: Coordinates| #[trigger] dot_map(t).contains_key(e) implies dot_map(t)[e] == dot_map(s).remove(s[i].0)[e] by {
        let k = key_index(t, e);
        lemma_key_index(t, k);
        let sk = if k < i { k } else { k + 1 };
        assert(s[sk] == t[k]);
        lemma_key_index(s, sk);
    }
    assert(dot_map(t) =~= dot_map(s).remove(s[i].0));
}

/// A drawing surface of `width` x `height` dots.
#[derive(Debug, Clone)]
pub struct Canvas {
    pub width: u16,
    pub height: u16,
    /// The dots, each at its own coordinates.
    pub dots: Vec<(Coordinates, Dot)>,
    pub background_color: Color,
}

impl Canvas {
    /// Whether no coordinates occur twice among the dots.
    pub open spec fn wf(&self) -> bool {
        keys_unique(self.dots@)
    }

    /// The dots by coordinates.
    pub open spec fn dot_map(&self) -> Map<Coordinates, Dot> {
        dot_map(self.dots@)
    }

    /// An empty canvas with a white background.
    pub fn new(width: u16, height: u16) -> (c: Self)
        ensures
            c.wf(),
            c.width == width,
            c.height == height,
            c.dots@.len() == 0,
            c.background_color == (Color { r: 255, g: 255, b: 255, a: 255 }),
    {
        Canvas { width, height, dots: Vec::new(), background_color: Color::white() }
    }

    /// The empty 320x120 canvas of the game.
    pub fn splatoon3_standard() -> (c: Self)
        ensures
            c.wf(),
            c.width == 320,
            c.height == 120,
            c.dots@.len() == 0,
            c.background_color == (Color { r: 255, g: 255, b: 255, a: 255 }),
    {
        Self::new(320, 120)
    }

    /// An empty canvas with the given background.
    pub fn with_background(width: u16, height: u16, background_color: Color) -> (c: Self)
        ensures
            c.wf(),
            c.width == width,
            c.height == height,
            c.dots@.len() == 0,
            c.background_color == background_color,
    {
        Canvas { width, height, dots: Vec::new(), background_color }
    }

    /// Position of the entry for `coordinates`, if any.
    fn find(&self, coordinates: &Coordinates) -> (r: Option<usize>)
        ensures
            match r {
                Some(i) => i < self.dots@.len() && self.dots@[i as int].0 == *coordinates,
                None => !has_key(self.dots@, *coordinates),
            },
    {
        let mut i: usize = 0;
        while i < self.dots.len()
            invariant
                i <= self.dots@.len(),
                forall|j: int| 0 <= j < i ==> (#[trigger] self.dots@[j]).0 != *coordinates,
            decreases self.dots@.len() - i,
        {
            if self.dots[i].0 == *coordinates {
                return Some(i);
            }
            i = i + 1;
        }
        None
    }

    /// Puts `dot` at `coordinates`, replacing any dot there; refused outside the canvas.
    pub fn set_dot(&mut self, coordinates: Coordinates, dot: Dot) -> (r: Result<(), CanvasError>)
        requires
            old(self).wf(),
        ensures
            final(self).wf(),
            final(self).width == old(self).width,
            final(self).height == old(self).height,
            final(self).background_color == old(self).background_color,
            coordinates.x < old(self).width && coordinates.y < old(self).height ==> r is Ok
                && final(self).dot_map() == old(self).dot_map().insert(coordinates, dot),
            !(coordinates.x < old(self).width && coordinates.y < old(self).height) ==> r
                == Err::<(), CanvasError>(CanvasError::OutOfBounds(coordinates))
                && final(self).dots@ == old(self).dots@,
    {
        if !coordinates.is_within_bounds(self.width, self.height) {
            return Err(CanvasError::OutOfBounds(coordinates));
        }
        match self.find(&coordinates) {
            Some(i) => {
                proof { lemma_dot_map_update(self.dots@, i as int, dot); }
                self.dots.set(i, (coordinates, dot));
            },
            None => {
                proof { lemma_dot_map_push(self.dots@, coordinates, dot); }
                self.dots.push((coordinates, dot));
            },
        }
        Ok(())
    }

    /// The dot at `coordinates`, if any.
    pub fn get_dot(&self, coordinates: &Coordinates) -> (r: Option<&Dot>)
        requires
            self.wf(),
        ensures
            match r {
                Some(d) => self.dot_map().contains_key(*coordinates) && self.dot_map()[*coordinates] == *d,
                None => !self.dot_map().contains_key(*coordinates),
            },
    {
        match self.find(coordinates) {
            Some(i) => {
                proof { lemma_key_index(self.dots@, i as int); }
                Some(&self.dots[i].1)
            },
            None => None,
        }
    }

    /// Removes and returns the dot at `coordinates`, if any.
    pub fn remove_dot(&mut self, coordinates: &Coordinates) -> (r: Option<Dot>)
        requires
            old(self).wf(),
        ensures
            final(self).wf(),
            final(self).dot_map() == old(self).dot_map().remove(*coordinates),
            r == (if old(self).dot_map().contains_key(*coordinates) { Some(old(self).dot_map()[*coordinates]) } else { None }),
            final(self).width == old(self).width,
            final(self).height == old(self).height,
            final(self).background_color == old(self).background_color,
    {
        match self.find(coordinates) {
            Some(i) => {
                proof {
                    lemma_key_index(self.dots@, i as int);
                    lemma_dot_map_remove(self.dots@, i as int);
                }
                let (_, d) = self.dots.remove(i);
                Some(d)
            },
            None => {
                assert(self.dot_map().remove(*coordinates) =~= self.dot_map());
                None
            },
        }
    }

    /// Removes every dot.
    pub fn clear(&mut self)
        ensures
            final(self).wf(),
            final(self).dots@.len() == 0,
            final(self).width == old(self).width,
            final(self).height == old(self).height,
            final(self).background_color == old(self).background_color,
    {
        self.dots.clear();
    }

    pub fn is_valid_coordinate(&self, coordinates: &Coordinates) -> (r: bool)
        ensures
            r == (coordinates.x < self.width && coordinates.y < self.height),
    {
        coordinates.is_within_bounds(self.width, self.height)
    }
}

/// Which dots a canvas query picks.
#[derive(Debug, Clone, Copy, PartialEq, Eq, Structural)]
pub enum DotSelector {
    /// Visible and not yet painted.
    Drawable,
    /// Already painted.
    Painted,
    /// Drawable (so not painted).
    Unpainted,
    /// Coordinates in the closed box between two corners.
    Region(Coordinates, Coordinates),
    /// Coordinates inside a `width` x `height` grid.
    Within(u16, u16),
}

pub open spec fn selects(sel: DotSelector, e: (Coordinates, Dot)) -> bool {
    match sel {
        DotSelector::Drawable => drawable(e.1),
        DotSelector::Painted => e.1.is_painted,
        DotSelector::Unpainted => drawable(e.1) && !e.1.is_painted,
        DotSelector::Region(tl, br) => tl.x <= e.0.x <= br.x && tl.y <= e.0.y <= br.y,
        DotSelector::Within(w, h) => e.0.x < w && e.0.y < h,
    }
}

/// The entries the selector picks, in their order.
pub open spec fn select_entries(s: Seq<(Coordinates, Dot)>, sel: DotSelector) -> Seq<(Coordinates, Dot)>
    decreases s.len(),
{
    if s.len() == 0 {
        s
    } else {
        let rest = select_entries(s.drop_last(), sel);
        if selects(sel, s.last()) { rest.push(s.last()) } else { rest }
    }
}

/// The pairs behind a sequence of reference pairs.
pub open spec fn deref_pairs(s: Seq<(&Coordinates, &Dot)>) -> Seq<(Coordinates, Dot)> {
    s.map_values(|p: (&Coordinates, &Dot)| (*p.0, *p.1))
}

impl DotSelector {
    pub fn test(&self, e: &(Coordinates, Dot)) -> (r: bool)
        ensures
            r == selects(*self, *e),
    {
        match *self {
            DotSelector::Drawable => e.1.is_drawable(),
            DotSelector::Painted => e.1.is_painted,
            DotSelector::Unpainted => e.1.is_drawable() && !e.1.is_painted,
            DotSelector::Region(tl, br) => e.0.x >= tl.x && e.0.x <= br.x && e.0.y >= tl.y && e.0.y <= br.y,
            DotSelector::Within(w, h) => e.0.is_within_bounds(w, h),
        }
    }
}

pub proof fn lemma_select_has_key(s: Seq<(Coordinates, Dot)>, sel: DotSelector, c: Coordinates)
    ensures
        has_key(select_entries(s, sel), c) ==> has_key(s, c),
    decreases s.len(),
{
    if s.len() > 0 {
        lemma_select_has_key(s.drop_last(), sel, c);
        let t = select_entries(s, sel);
        let r = select_entries(s.drop_last(), sel);
        if has_key(t, c) {
            let k = key_index(t, c);
            if k < r.len() {
                assert(r[k] == t[k]);
                let j = key_index(s.drop_last(), c);
                assert(s[j] == s.drop_last()[j]);
            } else {
                assert(s[s.len() - 1].0 == c);
            }
        }
    }
}

pub proof fn lemma_select_unique(s: Seq<(Coordinates, Dot)>, sel: DotSelector)
    requires
        keys_unique(s),
    ensures
        keys_unique(select_entries(s, sel)),
    decreases s.len(),
{
    if s.len() > 0 {
        let d = s.drop_last();
        assert(keys_unique(d)) by {
            assert forall|i: int, j: int| 0 <= i < d.len() && 0 <= j < d.len() && i != j implies (#[trigger] d[i]).0 != (#[trigger] d[j]).0 by {
                assert(d[i] == s[i] && d[j] == s[j]);
            }
        }
        lemma_select_unique(d, sel);
        let r = select_entries(d, sel);
        if selects(sel, s.last()) {
            let t = r.push(s.last());
            lemma_select_has_key(d, sel, s.last().0);
            assert(!has_key(d, s.last().0)) by {
                if has_key(d, s.last().0) {
                    let k = key_index(d, s.last().0);
                    assert(s[k].0 == s[s.len() - 1].0);
                }
            }
            assert forall|i: int, j: int| 0 <= i < t.len() && 0 <= j < t.len() && i != j implies (#[trigger] t[i]).0 != (#[trigger] t[j]).0 by {
                if i < r.len() && j < r.len() {
                    assert(t[i] == r[i] && t[j] == r[j]);
                } else if i < r.len() {
                    assert(t[i] == r[i]);
                    assert(has_key(r, r[i].0));
                } else {
                    assert(t[j] == r[j]);
                    assert(has_key(r, r[j].0));
                }
            }
        }
    }
}

/// The entries of `s` that `sel` picks, as references, in order.
fn select_refs<'a>(s: &'a Vec<(Coordinates, Dot)>, sel: DotSelector) -> (r: Vec<(&'a Coordinates, &'a Dot)>)
    ensures
        deref_pairs(r@) == select_entries(s@, sel),
{
    let mut out: Vec<(&'a Coordinates, &'a Dot)> = Vec::new();
    let mut i: usize = 0;
    while i < s.len()
        invariant
            i <= s@.len(),
            deref_pairs(out@) == select_entries(s@.take(i as int), sel),
        decreases s@.len() - i,
    {
        assert(s@.take(i + 1).drop_last() =~= s@.take(i as int));
        let e = &s[i];
        if sel.test(e) {
            let ghost before = out@;
            out.push((&e.0, &e.1));
            assert(deref_pairs(out@) =~= deref_pairs(before).push(s@[i as int]));
        }
        i = i + 1;
    }
    assert(s@.take(i as int) =~= s@);
    out
}

/// Copies of the entries of `s` that `sel` picks, in order.
fn select_copies(s: &Vec<(Coordinates, Dot)>, sel: DotSelector) -> (r: Vec<(Coordinates, Dot)>)
    ensures
        r@ == select_entries(s@, sel),
{
    let mut out: Vec<(Coordinates, Dot)> = Vec::new();
    let mut i: usize = 0;
    while i < s.len()
        invariant
            i <= s@.len(),
            out@ == select_entries(s@.take(i as int), sel),
        decreases s@.len() - i,
    {
        assert(s@.take(i + 1).drop_last() =~= s@.take(i as int));
        let e = s[i];
        if sel.test(&e) {
            out.push(e);
        }
        i = i + 1;
    }
    assert(s@.take(i as int) =~= s@);
    out
}

impl Canvas {
    /// The dots still to paint, in canvas order.
    pub fn drawable_dots(&self) -> (r: Vec<(&Coordinates, &Dot)>)
        ensures
            deref_pairs(r@) == select_entries(self.dots@, DotSelector::Drawable),
    {
        select_refs(&self.dots, DotSelector::Drawable)
    }

    /// The painted dots, in canvas order.
    pub fn painted_dots(&self) -> (r: Vec<(&Coordinates, &Dot)>)
        ensures
            deref_pairs(r@) == select_entries(self.dots@, DotSelector::Painted),
    {
        select_refs(&self.dots, DotSelector::Painted)
    }

    /// The drawable dots not yet painted, in canvas order.
    pub fn unpainted_dots(&self) -> (r: Vec<(&Coordinates, &Dot)>)
        ensures
            deref_pairs(r@) == select_entries(self.dots@, DotSelector::Unpainted),
    {
        select_refs(&self.dots, DotSelector::Unpainted)
    }

    /// The dots in the closed box from `top_left` to `bottom_right`, in canvas order.
    pub fn get_region(&self, top_left: Coordinates, bottom_right: Coordinates) -> (r: Vec<(&Coordinates, &Dot)>)
        ensures
            deref_pairs(r@) == select_entries(self.dots@, DotSelector::Region(top_left, bottom_right)),
    {
        select_refs(&self.dots, DotSelector::Region(top_left, bottom_right))
    }

    /// Changes the size, dropping the dots that no longer fit; refused for a zero side.
    pub fn resize(&mut self, new_width: u16, new_height: u16) -> (r: Result<(), CanvasError>)
        requires
            old(self).wf(),
        ensures
            final(self).wf(),
            new_width == 0 || new_height == 0 ==> r == Err::<(), CanvasError>(CanvasError::InvalidSize)
                && final(self).dots@ == old(self).dots@ && final(self).width == old(self).width
                && final(self).height == old(self).height,
            new_width != 0 && new_height != 0 ==> r is Ok
                && final(self).dots@ == select_entries(old(self).dots@, DotSelector::Within(new_width, new_height))
                && final(self).width == new_width && final(self).height == new_height,
            final(self).background_color == old(self).background_color,
    {
        if new_width == 0 || new_height == 0 {
            return Err(CanvasError::InvalidSize);
        }
        let kept = select_copies(&self.dots, DotSelector::Within(new_width, new_height));
        proof { lemma_select_unique(self.dots@, DotSelector::Within(new_width, new_height)); }
        self.dots = kept;
        self.width = new_width;
        self.height = new_height;
        Ok(())
    }
}

/// The effect of merging the entries `s` (offset by `(dx, dy)`) into a canvas
/// of `w` x `h` whose dots are `m`, entry by entry: the resulting dots, and the
/// coordinates of the entry that stopped the merge by leaving the `u16` range.
pub open spec fn merge_effect(m: Map<Coordinates, Dot>, s: Seq<(Coordinates, Dot)>, dx: int, dy: int, w: u16, h: u16) -> (Map<Coordinates, Dot>, Option<Coordinates>)
    decreases s.len(),
{
    if s.len() == 0 {
        (m, None)
    } else {
        let prev = merge_effect(m, s.drop_last(), dx, dy, w, h);
        if prev.1 is Some {
            prev
        } else {
            let c = s.last().0;
            let nx = c.x as int + dx;
            let ny = c.y as int + dy;
            if !(0 <= nx <= u16::MAX && 0 <= ny <= u16::MAX) {
                (prev.0, Some(c))
            } else if !(nx < w && ny < h) {
                prev
            } else {
                (prev.0.insert(Coordinates { x: nx as u16, y: ny as u16 }, s.last().1), None)
            }
        }
    }
}

impl Canvas {
    /// Copies the dots of `other`, moved by `offset`, onto this canvas; those
    /// landing outside it are skipped. The offset's components are read as
    /// `i16`. A dot moved out of the `u16` range stops the merge with an error
    /// naming its original coordinates; the dots copied before it stay.
    pub fn merge(&mut self, other: &Canvas, offset: Coordinates) -> (r: Result<(), CanvasError>)
        requires
            old(self).wf(),
        ensures
            final(self).wf(),
            final(self).width == old(self).width,
            final(self).height == old(self).height,
            final(self).background_color == old(self).background_color,
            ({
                let eff = merge_effect(old(self).dot_map(), other.dots@, (offset.x as i16) as int,
                    (offset.y as i16) as int, old(self).width, old(self).height);
                &&& final(self).dot_map() == eff.0
                &&& match eff.1 {
                    Some(c) => r == Err::<(), CanvasError>(CanvasError::OutOfBounds(c)),
                    None => r is Ok,
                }
            }),
    {
        let dx = offset.x as i16;
        let dy = offset.y as i16;
        let ghost m0 = self.dot_map();
        let mut i: usize = 0;
        while i < other.dots.len()
            invariant
                i <= other.dots@.len(),
                self.wf(),
                self.width == old(self).width,
                self.height == old(self).height,
                self.background_color == old(self).background_color,
                m0 == old(self).dot_map(),
                dx == offset.x as i16,
                dy == offset.y as i16,
                merge_effect(m0, other.dots@.take(i as int), dx as int, dy as int, self.width, self.height)
                    == (self.dot_map(), None::<Coordinates>),
            decreases other.dots@.len() - i,
        {
            assert(other.dots@.take(i + 1).drop_last() =~= other.dots@.take(i as int));
            let (coord, dot) = other.dots[i];
            match coord.move_by(dx, dy) {
                None => {
                    assert(other.dots@.take(i + 1) =~= other.dots@.take(i as int).push((coord, dot)));
                    assert(other.dots@.take(i + 1).last() == (coord, dot));
                    assert(merge_effect(m0, other.dots@.take(i + 1), dx as int, dy as int, self.width, self.height)
                        == (self.dot_map(), Some(coord)));
                    proof {
                        lemma_merge_effect_stops(m0, other.dots@, i as int + 1, dx as int, dy as int, self.width, self.height);
                    }
                    return Err(CanvasError::OutOfBounds(coord));
                },
                Some(new_coord) => {
                    if new_coord.is_within_bounds(self.width, self.height) {
                        let _ = self.set_dot(new_coord, dot);
                    }
                },
            }
            i = i + 1;
        }
        assert(other.dots@.take(i as int) =~= other.dots@);
        Ok(())
    }
}

/// Once the merge has stopped, later entries change nothing.
pub proof fn lemma_merge_effect_stops(m: Map<Coordinates, Dot>, s: Seq<(Coordinates, Dot)>, k: int, dx: int, dy: int, w: u16, h: u16)
    requires
        0 <= k <= s.len(),
        merge_effect(m, s.take(k), dx, dy, w, h).1 is Some,
    ensures
        merge_effect(m, s, dx, dy, w, h) == merge_effect(m, s.take(k), dx, dy, w, h),
    decreases s.len() - k,
{
    if k < s.len() {
        assert(s.take(k + 1).drop_last() =~= s.take(k));
        lemma_merge_effect_stops(m, s, k + 1, dx, dy, w, h);
    } else {
        assert(s.take(k) =~= s);
    }
}

impl Canvas {
    /// The dot at `coordinates` for in-place change, if any.
    pub fn get_dot_mut(&mut self, coordinates: &Coordinates) -> (r: Option<&mut Dot>)
        requires
            old(self).wf(),
        ensures
            match r {
                Some(d) => {
                    &&& old(self).dot_map().contains_key(*coordinates)
                    &&& *d == old(self).dot_map()[*coordinates]
                    &&& final(self).wf()
                    &&& final(self).dot_map() == old(self).dot_map().insert(*coordinates, *final(d))
                },
                None => !old(self).dot_map().contains_key(*coordinates) && *final(self) == *old(self),
            },
            final(self).width == old(self).width,
            final(self).height == old(self).height,
            final(self).background_color == old(self).background_color,
    {
        match self.find(coordinates) {
            Some(i) => {
                proof {
                    lemma_key_index(self.dots@, i as int);
                    assert forall|d2: Dot| #[trigger] dot_map(self.dots@.update(i as int, (*coordinates, d2)))
                        == dot_map(self.dots@).insert(*coordinates, d2)
                        && keys_unique(self.dots@.update(i as int, (*coordinates, d2))) by {
                        lemma_dot_map_update(self.dots@, i as int, d2);
                    }
                }
                Some(&mut self.dots[i].1)
            },
            None => None,
        }
    }
}

/// Whether every dot of `m` lies on a `w` x `h` canvas.
pub open spec fn keys_inside(m: Map<Coordinates, Dot>, w: u16, h: u16) -> bool {
    forall|k: Coordinates| #[trigger] m.contains_key(k) ==> k.x < w && k.y < h
}

/// A dot placed on a canvas is there to read back; the other dots stay as
/// they were; a removed dot is gone.
pub proof fn lemma_read_after_write(m: Map<Coordinates, Dot>, c: Coordinates, d: Dot, other: Coordinates)
    ensures
        m.insert(c, d).contains_key(c) && m.insert(c, d)[c] == d,
        other != c ==> (m.insert(c, d).contains_key(other) == m.contains_key(other)
            && (m.contains_key(other) ==> m.insert(c, d)[other] == m[other])),
        !m.remove(c).contains_key(c),
        other != c ==> (m.remove(c).contains_key(other) == m.contains_key(other)
            && (m.contains_key(other) ==> m.remove(c)[other] == m[other])),
{
}

/// Placing a dot inside the canvas, and removing one, keep every dot on it.
pub proof fn lemma_set_remove_keep_inside(m: Map<Coordinates, Dot>, w: u16, h: u16, c: Coordinates, d: Dot)
    requires
        keys_inside(m, w, h),
    ensures
        c.x < w && c.y < h ==> keys_inside(m.insert(c, d), w, h),
        keys_inside(m.remove(c), w, h),
{
}

/// Merging another canvas keeps every dot on the canvas.
pub proof fn lemma_merge_keeps_inside(m: Map<Coordinates, Dot>, s: Seq<(Coordinates, Dot)>, dx: int, dy: int, w: u16, h: u16)
    requires
        keys_inside(m, w, h),
    ensures
        keys_inside(merge_effect(m, s, dx, dy, w, h).0, w, h),
    decreases s.len(),
{
    if s.len() > 0 {
        lemma_merge_keeps_inside(m, s.drop_last(), dx, dy, w, h);
    }
}

/// Every entry a selector picks meets it.
proof fn lemma_selected_meet(s: Seq<(Coordinates, Dot)>, sel: DotSelector)
    ensures
        forall|i: int| 0 <= i < select_entries(s, sel).len() ==> selects(sel, #[trigger] select_entries(s, sel)[i]),
    decreases s.len(),
{
    if s.len() > 0 {
        lemma_selected_meet(s.drop_last(), sel);
        let r = select_entries(s.drop_last(), sel);
        assert forall|i: int| 0 <= i < select_entries(s, sel).len() implies selects(sel, #[trigger] select_entries(s, sel)[i]) by {
            if i < r.len() {
                assert(select_entries(s, sel)[i] == r[i]);
            }
        }
    }
}

/// After a resize, every dot lies on the canvas of the new size.
pub proof fn lemma_resize_inside(s: Seq<(Coordinates, Dot)>, w: u16, h: u16)
    ensures
        keys_inside(dot_map(select_entries(s, DotSelector::Within(w, h))), w, h),
{
    let t = select_entries(s, DotSelector::Within(w, h));
    lemma_selected_meet(s, DotSelector::Within(w, h));
    assert forall|k: Coordinates| #[trigger] dot_map(t).contains_key(k) implies k.x < w && k.y < h by {
        let i = choose|i: int| 0 <= i < t.len() && (#[trigger] t[i]).0 == k;
        assert(selects(DotSelector::Within(w, h), t[i]));
    }
}

} // verus!
