//! The artwork aggregate: a canvas of dots with its metadata, identity and
//! version.

use vstd::prelude::*;
use crate::canvas;
use crate::canvas::{ArtworkMetadata, ArtworkValidationError, Canvas, Dot, DotSelector};
use crate::ids::ArtworkId;
use crate::shared::{Color, Coordinates, Timestamp};
use crate::text;

verus! {

/// An artwork: the root of its aggregate.
#[derive(Debug, Clone)]
pub struct Artwork {
    pub id: ArtworkId,
    pub metadata: ArtworkMetadata,
    pub original_format: String,
    pub canvas: Canvas,
    pub created_at: Timestamp,
    pub updated_at: Timestamp,
    pub version: u32,
}

/// The colours of the dots, in order.
pub open spec fn dot_colors(s: Seq<(Coordinates, Dot)>) -> Seq<Color> {
    s.map_values(|e: (Coordinates, Dot)| e.1.color)
}

/// The dot with its paint status cleared.
pub open spec fn unpainted(d: Dot) -> Dot {
    Dot { is_painted: false, painted_at: None, ..d }
}

/// The entries with every dot's paint status cleared.
pub open spec fn reset_entries(s: Seq<(Coordinates, Dot)>) -> Seq<(Coordinates, Dot)> {
    s.map_values(|e: (Coordinates, Dot)| (e.0, unpainted(e.1)))
}

/// The first dot, in canvas order, that lies outside a `w` x `h` canvas.
pub open spec fn first_outside(s: Seq<(Coordinates, Dot)>, w: u16, h: u16) -> Option<Coordinates>
    decreases s.len(),
{
    if s.len() == 0 {
        None
    } else if !(s[0].0.x < w && s[0].0.y < h) {
        Some(s[0].0)
    } else {
        first_outside(s.drop_first(), w, h)
    }
}

/// The outcome of `Artwork::validate`: a name that is not blank, a canvas of
/// 1 to 1000 pixels on each side, and every dot on the canvas.
pub open spec fn validation(a: Artwork) -> Result<(), ArtworkValidationError> {
    if text::trim(a.metadata.name@).len() == 0 {
        Err(ArtworkValidationError::EmptyName)
    } else if a.canvas.width == 0 || a.canvas.height == 0 {
        Err(ArtworkValidationError::InvalidCanvasSize)
    } else if a.canvas.width > 1000 || a.canvas.height > 1000 {
        Err(ArtworkValidationError::CanvasTooLarge)
    } else {
        match first_outside(a.canvas.dots@, a.canvas.width, a.canvas.height) {
            Some(c) => Err(ArtworkValidationError::DotOutOfBounds(c)),
            None => Ok(()),
        }
    }
}

proof fn lemma_first_outside_skip(s: Seq<(Coordinates, Dot)>, w: u16, h: u16, i: int)
    requires
        0 <= i < s.len(),
        s[i].0.x < w && s[i].0.y < h,
        first_outside(s, w, h) == first_outside(s.skip(i), w, h),
    ensures
        first_outside(s, w, h) == first_outside(s.skip(i + 1), w, h),
{
    assert(s.skip(i).drop_first() =~= s.skip(i + 1));
}

proof fn lemma_first_outside_meaning(s: Seq<(Coordinates, Dot)>, w: u16, h: u16)
    ensures
        first_outside(s, w, h) is None <==> forall|i: int| 0 <= i < s.len() ==> (#[trigger] s[i]).0.x < w && s[i].0.y < h,
        first_outside(s, w, h) matches Some(c) ==> exists|i: int| 0 <= i < s.len() && (#[trigger] s[i]).0 == c
            && !(c.x < w && c.y < h)
            && forall|j: int| 0 <= j < i ==> (#[trigger] s[j]).0.x < w && s[j].0.y < h,
    decreases s.len(),
{
    if s.len() > 0 {
        let t = s.drop_first();
        lemma_first_outside_meaning(t, w, h);
        assert forall|i: int| 0 < i < s.len() implies #[trigger] s[i] == t[i - 1] by {}
        if s[0].0.x < w && s[0].0.y < h {
            if first_outside(t, w, h) is None {
                assert forall|i: int| 0 <= i < s.len() implies (#[trigger] s[i]).0.x < w && s[i].0.y < h by {
                    if i > 0 {
                        assert(t[i - 1].0.x < w && t[i - 1].0.y < h);
                    }
                }
            } else {
                let c = first_outside(t, w, h)->Some_0;
                let k = choose|k: int| 0 <= k < t.len() && (#[trigger] t[k]).0 == c && !(c.x < w && c.y < h)
                    && forall|j: int| 0 <= j < k ==> (#[trigger] t[j]).0.x < w && t[j].0.y < h;
                assert(s[k + 1].0 == c);
                assert forall|j: int| 0 <= j < k + 1 implies (#[trigger] s[j]).0.x < w && s[j].0.y < h by {
                    if j > 0 {
                        assert(t[j - 1].0.x < w && t[j - 1].0.y < h);
                    }
                }
                assert(!(s[k + 1].0.x < w && s[k + 1].0.y < h));
            }
        } else {
            assert(!(s[0].0.x < w && s[0].0.y < h));
        }
    }
}

/// What validation means: an artwork is valid exactly when its name is not
/// blank, its canvas is 1 to 1000 pixels wide and high, and every dot lies on
/// it (`x < width`, `y < height`). Otherwise the first failing check, in that
/// order, is reported; a dot reported out of bounds is a dot of the canvas
/// that lies off it, and every dot before it lies on it.
pub proof fn lemma_validation_meaning(a: Artwork)
    ensures
        validation(a) is Ok <==> (text::trim(a.metadata.name@).len() != 0
            && 1 <= a.canvas.width <= 1000 && 1 <= a.canvas.height <= 1000
            && forall|i: int| 0 <= i < a.canvas.dots@.len()
                ==> (#[trigger] a.canvas.dots@[i]).0.x < a.canvas.width && a.canvas.dots@[i].0.y < a.canvas.height),
        (validation(a) == Err::<(), ArtworkValidationError>(ArtworkValidationError::EmptyName))
            <==> text::trim(a.metadata.name@).len() == 0,
        (validation(a) == Err::<(), ArtworkValidationError>(ArtworkValidationError::InvalidCanvasSize))
            <==> (text::trim(a.metadata.name@).len() != 0 && (a.canvas.width == 0 || a.canvas.height == 0)),
        (validation(a) == Err::<(), ArtworkValidationError>(ArtworkValidationError::CanvasTooLarge))
            <==> (text::trim(a.metadata.name@).len() != 0 && a.canvas.width != 0 && a.canvas.height != 0
                && (a.canvas.width > 1000 || a.canvas.height > 1000)),
        validation(a) matches Err(ArtworkValidationError::DotOutOfBounds(c)) ==> exists|i: int|
            0 <= i < a.canvas.dots@.len() && (#[trigger] a.canvas.dots@[i]).0 == c
            && (c.x >= a.canvas.width || c.y >= a.canvas.height)
            && forall|j: int| 0 <= j < i
                ==> (#[trigger] a.canvas.dots@[j]).0.x < a.canvas.width && a.canvas.dots@[j].0.y < a.canvas.height,
{
    lemma_first_outside_meaning(a.canvas.dots@, a.canvas.width, a.canvas.height);
}

impl Artwork {
    /// A new artwork at version 1, with a fresh random identifier, created now.
    pub fn new(metadata: ArtworkMetadata, original_format: String, canvas: Canvas) -> (a: Self)
        ensures
            a.metadata == metadata,
            a.original_format == original_format,
            a.canvas == canvas,
            a.created_at == a.updated_at,
            a.version == 1,
    {
        let now = Timestamp::now();
        Artwork {
            id: ArtworkId::generate(),
            metadata,
            original_format,
            canvas,
            created_at: now,
            updated_at: now,
            version: 1,
        }
    }

    /// A new artwork at version 1 with the given identifier, created now.
    pub fn with_id(id: ArtworkId, metadata: ArtworkMetadata, original_format: String, canvas: Canvas) -> (a: Self)
        ensures
            a.id == id,
            a.metadata == metadata,
            a.original_format == original_format,
            a.canvas == canvas,
            a.created_at == a.updated_at,
            a.version == 1,
    {
        let now = Timestamp::now();
        Artwork { id, metadata, original_format, canvas, created_at: now, updated_at: now, version: 1 }
    }

    /// Replaces the canvas: a new version, updated now.
    pub fn update_canvas(&mut self, canvas: Canvas)
        requires
            old(self).version < u32::MAX,
        ensures
            final(self).canvas == canvas,
            final(self).version == old(self).version + 1,
            final(self).id == old(self).id,
            final(self).metadata == old(self).metadata,
            final(self).original_format == old(self).original_format,
            final(self).created_at == old(self).created_at,
    {
        self.canvas = canvas;
        self.updated_at = Timestamp::now();
        self.version = self.version + 1;
    }

    /// Replaces the metadata: a new version, updated now.
    pub fn update_metadata(&mut self, metadata: ArtworkMetadata)
        requires
            old(self).version < u32::MAX,
        ensures
            final(self).metadata == metadata,
            final(self).version == old(self).version + 1,
            final(self).id == old(self).id,
            final(self).canvas == old(self).canvas,
            final(self).original_format == old(self).original_format,
            final(self).created_at == old(self).created_at,
    {
        self.metadata = metadata;
        self.updated_at = Timestamp::now();
        self.version = self.version + 1;
    }

    /// Number of dots.
    pub fn total_dots(&self) -> (r: usize)
        ensures
            r == self.canvas.dots@.len(),
    {
        self.canvas.dots.len()
    }

    /// Number of dots still to paint.
    pub fn drawable_dots(&self) -> (r: usize)
        ensures
            r == canvas::select_entries(self.canvas.dots@, DotSelector::Drawable).len(),
    {
        let mut count: usize = 0;
        let mut i: usize = 0;
        while i < self.canvas.dots.len()
            invariant
                i <= self.canvas.dots@.len(),
                count == canvas::select_entries(self.canvas.dots@.take(i as int), DotSelector::Drawable).len(),
                count <= i,
            decreases self.canvas.dots@.len() - i,
        {
            assert(self.canvas.dots@.take(i + 1).drop_last() =~= self.canvas.dots@.take(i as int));
            if self.canvas.dots[i].1.is_drawable() {
                count = count + 1;
            }
            i = i + 1;
        }
        assert(self.canvas.dots@.take(i as int) =~= self.canvas.dots@);
        count
    }

    /// Number of dots already painted (as `statistics` counts them).
    pub fn painted_dot_count(&self) -> (r: usize)
        ensures
            r == canvas::select_entries(self.canvas.dots@, DotSelector::Painted).len(),
    {
        let mut count: usize = 0;
        let mut i: usize = 0;
        while i < self.canvas.dots.len()
            invariant
                i <= self.canvas.dots@.len(),
                count == canvas::select_entries(self.canvas.dots@.take(i as int), DotSelector::Painted).len(),
                count <= i,
            decreases self.canvas.dots@.len() - i,
        {
            assert(self.canvas.dots@.take(i + 1).drop_last() =~= self.canvas.dots@.take(i as int));
            if self.canvas.dots[i].1.is_painted {
                count = count + 1;
            }
            i = i + 1;
        }
        assert(self.canvas.dots@.take(i as int) =~= self.canvas.dots@);
        count
    }

    /// Number of different colours among the dots (as `statistics` counts them).
    pub fn unique_color_count(&self) -> (r: usize)
        ensures
            r == dot_colors(self.canvas.dots@).to_set().len(),
    {
        let mut seen: Vec<Color> = Vec::new();
        let mut i: usize = 0;
        while i < self.canvas.dots.len()
            invariant
                i <= self.canvas.dots@.len(),
                seen@.no_duplicates(),
                seen@.to_set() == dot_colors(self.canvas.dots@.take(i as int)).to_set(),
                seen@.len() <= i,
            decreases self.canvas.dots@.len() - i,
        {
            let c = self.canvas.dots[i].1.color;
            let mut found = false;
            let mut k: usize = 0;
            while k < seen.len()
                invariant
                    k <= seen@.len(),
                    found == (exists|j: int| 0 <= j < k && seen@[j] == c),
                decreases seen@.len() - k,
            {
                if seen[k] == c {
                    found = true;
                }
                k = k + 1;
            }
            let ghost before = seen@;
            proof {
                let t = self.canvas.dots@;
                assert(t.take(i + 1) =~= t.take(i as int).push(t[i as int]));
                assert(dot_colors(t.take(i + 1)) =~= dot_colors(t.take(i as int)).push(c));
                assert(dot_colors(t.take(i + 1)).to_set() =~= dot_colors(t.take(i as int)).to_set().insert(c)) by {
                    broadcast use vstd::seq_lib::group_seq_properties;
                }
            }
            if !found {
                seen.push(c);
                proof {
                    assert(!before.contains(c));
                    assert(seen@ =~= before.push(c));
                    assert(before.push(c).to_set() =~= before.to_set().insert(c)) by {
                        broadcast use vstd::seq_lib::group_seq_properties;
                    }
                }
            } else {
                proof {
                    let j = choose|j: int| 0 <= j < k && seen@[j] == c;
                    assert(before.to_set().contains(c));
                    assert(before.to_set().insert(c) =~= before.to_set());
                }
            }
            i = i + 1;
        }
        proof {
            assert(self.canvas.dots@.take(i as int) =~= self.canvas.dots@);
            seen@.unique_seq_to_set();
        }
        seen.len()
    }

    /// Clears the paint status of every dot: a new version, updated now.
    pub fn reset_painting_state(&mut self)
        requires
            old(self).version < u32::MAX,
        ensures
            final(self).canvas.dots@ == reset_entries(old(self).canvas.dots@),
            final(self).canvas.width == old(self).canvas.width,
            final(self).canvas.height == old(self).canvas.height,
            final(self).canvas.background_color == old(self).canvas.background_color,
            final(self).version == old(self).version + 1,
            final(self).id == old(self).id,
            final(self).metadata == old(self).metadata,
            final(self).original_format == old(self).original_format,
            final(self).created_at == old(self).created_at,
    {
        let ghost orig = self.canvas.dots@;
        let mut i: usize = 0;
        while i < self.canvas.dots.len()
            invariant
                i <= self.canvas.dots@.len(),
                self.canvas.dots@.len() == orig.len(),
                forall|k: int| 0 <= k < i ==> self.canvas.dots@[k] == (orig[k].0, unpainted(orig[k].1)),
                forall|k: int| i <= k < orig.len() ==> self.canvas.dots@[k] == orig[k],
                self.canvas.width == old(self).canvas.width,
                self.canvas.height == old(self).canvas.height,
                self.canvas.background_color == old(self).canvas.background_color,
                self.version == old(self).version,
                self.id == old(self).id,
                self.metadata == old(self).metadata,
                self.original_format == old(self).original_format,
                self.created_at == old(self).created_at,
                orig == old(self).canvas.dots@,
            decreases self.canvas.dots@.len() - i,
        {
            let (c, d) = self.canvas.dots[i];
            let mut d2 = d;
            d2.reset_paint_status();
            self.canvas.dots.set(i, (c, d2));
            i = i + 1;
        }
        assert(self.canvas.dots@ =~= reset_entries(orig));
        self.updated_at = Timestamp::now();
        self.version = self.version + 1;
    }

    /// Checks the artwork; see `validation`.
    pub fn validate(&self) -> (r: Result<(), ArtworkValidationError>)
        ensures
            r == validation(*self),
    {
        let name = text::chars_of(self.metadata.name.as_str());
        let (a, b) = text::trim_range(name.as_slice(), 0, name.len());
        assert(name@.subrange(0, name@.len() as int) =~= self.metadata.name@);
        if a == b {
            return Err(ArtworkValidationError::EmptyName);
        }
        if self.canvas.width == 0 || self.canvas.height == 0 {
            return Err(ArtworkValidationError::InvalidCanvasSize);
        }
        if self.canvas.width > 1000 || self.canvas.height > 1000 {
            return Err(ArtworkValidationError::CanvasTooLarge);
        }
        assert(text::trim(self.metadata.name@).len() != 0);
        let ghost s = self.canvas.dots@;
        let mut i: usize = 0;
        assert(s.skip(0) =~= s);
        while i < self.canvas.dots.len()
            invariant
                i <= s.len(),
                s == self.canvas.dots@,
                text::trim(self.metadata.name@).len() != 0,
                1 <= self.canvas.width <= 1000,
                1 <= self.canvas.height <= 1000,
                first_outside(s, self.canvas.width, self.canvas.height)
                    == first_outside(s.skip(i as int), self.canvas.width, self.canvas.height),
            decreases s.len() - i,
        {
            let c = self.canvas.dots[i].0;
            if !c.is_within_bounds(self.canvas.width, self.canvas.height) {
                assert(s.skip(i as int)[0].0 == c);
                assert(s.skip(i as int).len() > 0);
                assert(first_outside(s.skip(i as int), self.canvas.width, self.canvas.height) == Some(c));
                return Err(ArtworkValidationError::DotOutOfBounds(c));
            }
            proof { lemma_first_outside_skip(s, self.canvas.width, self.canvas.height, i as int); }
            i = i + 1;
        }
        assert(s.skip(i as int).len() == 0);
        Ok(())
    }
}

} // verus!
