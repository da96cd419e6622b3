//! The domain events of an artwork, how important they are and what they concern.

use vstd::prelude::*;
use crate::canvas::{ArtworkMetadata, Canvas, DotSelector, select_entries};
use crate::event_stream::{DomainEvent, EventMetadata, MetadataView};
use crate::ids::{ArtworkId, EventId, uuid_text};
use crate::shared::{Color, Coordinates, Timestamp, coordinates_text};
use crate::text;

verus! {

/// Importance of an event, from least to most severe.
#[derive(Debug, Clone, Copy, PartialEq, Eq, PartialOrd, Ord, Hash, Structural)]
pub enum EventSeverity {
    Debug,
    Info,
    Warning,
    Error,
}

/// The position of a severity in the order `Debug < Info < Warning < Error`.
pub open spec fn severity_rank(s: EventSeverity) -> nat {
    match s {
        EventSeverity::Debug => 0,
        EventSeverity::Info => 1,
        EventSeverity::Warning => 2,
        EventSeverity::Error => 3,
    }
}

/// The name of a severity.
pub open spec fn severity_text(s: EventSeverity) -> Seq<char> {
    match s {
        EventSeverity::Debug => "DEBUG"@,
        EventSeverity::Info => "INFO"@,
        EventSeverity::Warning => "WARNING"@,
        EventSeverity::Error => "ERROR"@,
    }
}

impl EventSeverity {
    /// The position of the severity in its order.
    fn rank(&self) -> (r: u8)
        ensures
            r == severity_rank(*self),
    {
        match self {
            EventSeverity::Debug => 0,
            EventSeverity::Info => 1,
            EventSeverity::Warning => 2,
            EventSeverity::Error => 3,
        }
    }

    /// Whether this severity is `level` or above.
    pub fn is_at_least(&self, level: EventSeverity) -> (r: bool)
        ensures
            r == (severity_rank(*self) >= severity_rank(level)),
    {
        self.rank() >= level.rank()
    }

    /// The name of the severity; see `severity_text`.
    pub fn as_str(&self) -> (r: &'static str)
        ensures
            r@ == severity_text(*self),
    {
        match self {
            EventSeverity::Debug => "DEBUG",
            EventSeverity::Info => "INFO",
            EventSeverity::Warning => "WARNING",
            EventSeverity::Error => "ERROR",
        }
    }
}

/// What an event concerns.
#[derive(Debug, Clone, Copy, PartialEq, Eq, Hash, Structural)]
pub enum EventCategory {
    Artwork,
    Painting,
}

impl EventCategory {
    /// The name of the category.
    pub fn as_str(&self) -> (r: &'static str)
        ensures
            r@ == (match *self {
                EventCategory::Artwork => "ARTWORK"@,
                EventCategory::Painting => "PAINTING"@,
            }),
    {
        match self {
            EventCategory::Artwork => "ARTWORK",
            EventCategory::Painting => "PAINTING",
        }
    }
}

/// What happened to an artwork. A completion ratio, a float, is carried as
/// the bits of its `f64` (`completion_ratio_bits`); only the caller reads it.
#[derive(Debug, Clone)]
pub enum ArtworkEvent {
    ArtworkCreated {
        event_id: EventId,
        artwork_id: ArtworkId,
        metadata: ArtworkMetadata,
        original_format: String,
        canvas_width: u16,
        canvas_height: u16,
        occurred_at: Timestamp,
        version: u32,
        event_metadata: EventMetadata,
    },
    ArtworkMetadataUpdated {
        event_id: EventId,
        artwork_id: ArtworkId,
        old_metadata: ArtworkMetadata,
        new_metadata: ArtworkMetadata,
        occurred_at: Timestamp,
        version: u32,
        event_metadata: EventMetadata,
    },
    ArtworkCanvasUpdated {
        event_id: EventId,
        artwork_id: ArtworkId,
        canvas_width: u16,
        canvas_height: u16,
        total_dots: usize,
        drawable_dots: usize,
        occurred_at: Timestamp,
        version: u32,
        event_metadata: EventMetadata,
    },
    ArtworkDeleted {
        event_id: EventId,
        artwork_id: ArtworkId,
        artwork_name: String,
        occurred_at: Timestamp,
        version: u32,
        event_metadata: EventMetadata,
    },
    PaintingStarted {
        event_id: EventId,
        artwork_id: ArtworkId,
        total_dots_to_paint: usize,
        estimated_duration_seconds: u64,
        occurred_at: Timestamp,
        version: u32,
        event_metadata: EventMetadata,
    },
    DotPainted {
        event_id: EventId,
        artwork_id: ArtworkId,
        coordinates: Coordinates,
        color: Color,
        sequence_number: u32,
        occurred_at: Timestamp,
        version: u32,
        event_metadata: EventMetadata,
    },
    PaintingPaused {
        event_id: EventId,
        artwork_id: ArtworkId,
        painted_dots: usize,
        remaining_dots: usize,
        completion_ratio_bits: u64,
        occurred_at: Timestamp,
        version: u32,
        event_metadata: EventMetadata,
    },
    PaintingResumed {
        event_id: EventId,
        artwork_id: ArtworkId,
        remaining_dots: usize,
        occurred_at: Timestamp,
        version: u32,
        event_metadata: EventMetadata,
    },
    PaintingCompleted {
        event_id: EventId,
        artwork_id: ArtworkId,
        total_dots_painted: usize,
        painting_duration_seconds: u64,
        occurred_at: Timestamp,
        version: u32,
        event_metadata: EventMetadata,
    },
    PaintingCancelled {
        event_id: EventId,
        artwork_id: ArtworkId,
        painted_dots: usize,
        completion_ratio_bits: u64,
        reason: String,
        occurred_at: Timestamp,
        version: u32,
        event_metadata: EventMetadata,
    },
    PaintingErrorOccurred {
        event_id: EventId,
        artwork_id: ArtworkId,
        coordinates: Option<Coordinates>,
        error_message: String,
        retry_count: u32,
        occurred_at: Timestamp,
        version: u32,
        event_metadata: EventMetadata,
    },
    ArtworkReset {
        event_id: EventId,
        artwork_id: ArtworkId,
        previous_completion_ratio_bits: u64,
        occurred_at: Timestamp,
        version: u32,
        event_metadata: EventMetadata,
    },
}

/// The name of the kind of an event.
pub open spec fn event_kind_name(e: ArtworkEvent) -> Seq<char> {
    match e {
        ArtworkEvent::ArtworkCreated { .. } => "ArtworkCreated"@,
        ArtworkEvent::ArtworkMetadataUpdated { .. } => "ArtworkMetadataUpdated"@,
        ArtworkEvent::ArtworkCanvasUpdated { .. } => "ArtworkCanvasUpdated"@,
        ArtworkEvent::ArtworkDeleted { .. } => "ArtworkDeleted"@,
        ArtworkEvent::PaintingStarted { .. } => "PaintingStarted"@,
        ArtworkEvent::DotPainted { .. } => "DotPainted"@,
        ArtworkEvent::PaintingPaused { .. } => "PaintingPaused"@,
        ArtworkEvent::PaintingResumed { .. } => "PaintingResumed"@,
        ArtworkEvent::PaintingCompleted { .. } => "PaintingCompleted"@,
        ArtworkEvent::PaintingCancelled { .. } => "PaintingCancelled"@,
        ArtworkEvent::PaintingErrorOccurred { .. } => "PaintingErrorOccurred"@,
        ArtworkEvent::ArtworkReset { .. } => "ArtworkReset"@,
    }
}

/// How important an event is.
pub open spec fn event_severity(e: ArtworkEvent) -> EventSeverity {
    match e {
        ArtworkEvent::ArtworkDeleted { .. } => EventSeverity::Warning,
        ArtworkEvent::DotPainted { .. } => EventSeverity::Debug,
        ArtworkEvent::PaintingCancelled { .. } => EventSeverity::Warning,
        ArtworkEvent::PaintingErrorOccurred { .. } => EventSeverity::Error,
        ArtworkEvent::ArtworkReset { .. } => EventSeverity::Warning,
        _ => EventSeverity::Info,
    }
}

/// Whether the user is told of an event: every warning and error, and of the
/// informative events the start and end of painting and a new artwork.
pub open spec fn notifies_user(e: ArtworkEvent) -> bool {
    match event_severity(e) {
        EventSeverity::Error | EventSeverity::Warning => true,
        EventSeverity::Info => e is PaintingStarted || e is PaintingCompleted || e is ArtworkCreated,
        EventSeverity::Debug => false,
    }
}

/// What an event concerns: the artwork itself, or painting it.
pub open spec fn event_category(e: ArtworkEvent) -> EventCategory {
    match e {
        ArtworkEvent::ArtworkCreated { .. } | ArtworkEvent::ArtworkMetadataUpdated { .. }
        | ArtworkEvent::ArtworkCanvasUpdated { .. } | ArtworkEvent::ArtworkDeleted { .. }
        | ArtworkEvent::ArtworkReset { .. } => EventCategory::Artwork,
        _ => EventCategory::Painting,
    }
}

/// The identifier, time and version that every event carries.
pub open spec fn event_header(e: ArtworkEvent) -> (EventId, ArtworkId, Timestamp, u32) {
    match e {
        ArtworkEvent::ArtworkCreated { event_id, artwork_id, occurred_at, version, .. }
        | ArtworkEvent::ArtworkMetadataUpdated { event_id, artwork_id, occurred_at, version, .. }
        | ArtworkEvent::ArtworkCanvasUpdated { event_id, artwork_id, occurred_at, version, .. }
        | ArtworkEvent::ArtworkDeleted { event_id, artwork_id, occurred_at, version, .. }
        | ArtworkEvent::PaintingStarted { event_id, artwork_id, occurred_at, version, .. }
        | ArtworkEvent::DotPainted { event_id, artwork_id, occurred_at, version, .. }
        | ArtworkEvent::PaintingPaused { event_id, artwork_id, occurred_at, version, .. }
        | ArtworkEvent::PaintingResumed { event_id, artwork_id, occurred_at, version, .. }
        | ArtworkEvent::PaintingCompleted { event_id, artwork_id, occurred_at, version, .. }
        | ArtworkEvent::PaintingCancelled { event_id, artwork_id, occurred_at, version, .. }
        | ArtworkEvent::PaintingErrorOccurred { event_id, artwork_id, occurred_at, version, .. }
        | ArtworkEvent::ArtworkReset { event_id, artwork_id, occurred_at, version, .. } =>
            (event_id, artwork_id, occurred_at, version),
    }
}

/// The metadata that every event carries.
pub open spec fn event_metadata_of(e: ArtworkEvent) -> EventMetadata {
    match e {
        ArtworkEvent::ArtworkCreated { event_metadata, .. }
        | ArtworkEvent::ArtworkMetadataUpdated { event_metadata, .. }
        | ArtworkEvent::ArtworkCanvasUpdated { event_metadata, .. }
        | ArtworkEvent::ArtworkDeleted { event_metadata, .. }
        | ArtworkEvent::PaintingStarted { event_metadata, .. }
        | ArtworkEvent::DotPainted { event_metadata, .. }
        | ArtworkEvent::PaintingPaused { event_metadata, .. }
        | ArtworkEvent::PaintingResumed { event_metadata, .. }
        | ArtworkEvent::PaintingCompleted { event_metadata, .. }
        | ArtworkEvent::PaintingCancelled { event_metadata, .. }
        | ArtworkEvent::PaintingErrorOccurred { event_metadata, .. }
        | ArtworkEvent::ArtworkReset { event_metadata, .. } => event_metadata,
    }
}

/// The one-line description of an event, in Japanese; `progress` is the
/// completion percentage with one decimal, as text, for the events that
/// carry a completion ratio.
pub open spec fn summary_text(e: ArtworkEvent, progress: Seq<char>) -> Seq<char> {
    match e {
        ArtworkEvent::ArtworkCreated { metadata, .. } => "アートワーク「"@ + metadata.name@ + "」が作成されました"@,
        ArtworkEvent::ArtworkMetadataUpdated { new_metadata, .. } =>
            "アートワーク「"@ + new_metadata.name@ + "」のメタデータが更新されました"@,
        ArtworkEvent::ArtworkCanvasUpdated { drawable_dots, .. } =>
            "キャンバスが更新されました（描画可能ドット: "@ + text::decimal(drawable_dots as nat) + "個）"@,
        ArtworkEvent::ArtworkDeleted { artwork_name, .. } => "アートワーク「"@ + artwork_name@ + "」が削除されました"@,
        ArtworkEvent::PaintingStarted { total_dots_to_paint, .. } =>
            "描画を開始しました（"@ + text::decimal(total_dots_to_paint as nat) + "個のドット）"@,
        ArtworkEvent::DotPainted { coordinates, sequence_number, .. } =>
            "ドット #"@ + text::decimal(sequence_number as nat) + " を座標 "@ + coordinates_text(coordinates) + " に描画しました"@,
        ArtworkEvent::PaintingPaused { .. } => "描画を一時停止しました（進捗: "@ + progress + "%）"@,
        ArtworkEvent::PaintingResumed { remaining_dots, .. } =>
            "描画を再開しました（残り: "@ + text::decimal(remaining_dots as nat) + "個）"@,
        ArtworkEvent::PaintingCompleted { total_dots_painted, painting_duration_seconds, .. } =>
            "描画が完了しました（"@ + text::decimal(total_dots_painted as nat) + "個のドット、"@
                + text::decimal(painting_duration_seconds as nat) + "秒）"@,
        ArtworkEvent::PaintingCancelled { reason, .. } =>
            "描画がキャンセルされました（進捗: "@ + progress + "%、理由: "@ + reason@ + "）"@,
        ArtworkEvent::PaintingErrorOccurred { error_message, retry_count, .. } =>
            "描画エラーが発生しました（リトライ: "@ + text::decimal(retry_count as nat) + "回、エラー: "@
                + error_message@ + "）"@,
        ArtworkEvent::ArtworkReset { .. } => "アートワークがリセットされました（以前の進捗: "@ + progress + "%）"@,
    }
}

impl ArtworkEvent {
    /// An artwork was created from a picture of `original_format` on `canvas`.
    pub fn artwork_created(
        artwork_id: ArtworkId,
        metadata: ArtworkMetadata,
        original_format: String,
        canvas: &Canvas,
        version: u32,
        event_metadata: EventMetadata,
    ) -> (e: Self)
        ensures
            e matches ArtworkEvent::ArtworkCreated { artwork_id: a, metadata: m, original_format: f, canvas_width: w,
                canvas_height: h, version: v, event_metadata: em, .. }
            && a == artwork_id && m == metadata && f == original_format && w == canvas.width && h == canvas.height
            && v == version && em == event_metadata,
    {
        ArtworkEvent::ArtworkCreated {
            event_id: EventId::generate(),
            artwork_id,
            metadata,
            original_format,
            canvas_width: canvas.width,
            canvas_height: canvas.height,
            occurred_at: Timestamp::now(),
            version,
            event_metadata,
        }
    }

    /// The metadata of an artwork changed.
    pub fn metadata_updated(
        artwork_id: ArtworkId,
        old_metadata: ArtworkMetadata,
        new_metadata: ArtworkMetadata,
        version: u32,
        event_metadata: EventMetadata,
    ) -> (e: Self)
        ensures
            e matches ArtworkEvent::ArtworkMetadataUpdated { artwork_id: a, old_metadata: o, new_metadata: n,
                version: v, event_metadata: em, .. }
            && a == artwork_id && o == old_metadata && n == new_metadata && v == version && em == event_metadata,
    {
        ArtworkEvent::ArtworkMetadataUpdated {
            event_id: EventId::generate(),
            artwork_id,
            old_metadata,
            new_metadata,
            occurred_at: Timestamp::now(),
            version,
            event_metadata,
        }
    }

    /// The canvas of an artwork changed; the event counts its dots and those
    /// still to paint.
    pub fn canvas_updated(artwork_id: ArtworkId, canvas: &Canvas, version: u32, event_metadata: EventMetadata) -> (e: Self)
        ensures
            e matches ArtworkEvent::ArtworkCanvasUpdated { artwork_id: a, canvas_width: w, canvas_height: h,
                total_dots: t, drawable_dots: d, version: v, event_metadata: em, .. }
            && a == artwork_id && w == canvas.width && h == canvas.height && t == canvas.dots@.len()
            && d == select_entries(canvas.dots@, DotSelector::Drawable).len() && v == version && em == event_metadata,
    {
        let drawable = canvas.drawable_dots();
        let drawable_dots = drawable.len();
        ArtworkEvent::ArtworkCanvasUpdated {
            event_id: EventId::generate(),
            artwork_id,
            canvas_width: canvas.width,
            canvas_height: canvas.height,
            total_dots: canvas.dots.len(),
            drawable_dots,
            occurred_at: Timestamp::now(),
            version,
            event_metadata,
        }
    }

    /// An artwork was deleted.
    pub fn artwork_deleted(artwork_id: ArtworkId, artwork_name: String, version: u32, event_metadata: EventMetadata) -> (e: Self)
        ensures
            e matches ArtworkEvent::ArtworkDeleted { artwork_id: a, artwork_name: n, version: v, event_metadata: em, .. }
            && a == artwork_id && n == artwork_name && v == version && em == event_metadata,
    {
        ArtworkEvent::ArtworkDeleted {
            event_id: EventId::generate(),
            artwork_id,
            artwork_name,
            occurred_at: Timestamp::now(),
            version,
            event_metadata,
        }
    }

    /// Painting started.
    pub fn painting_started(
        artwork_id: ArtworkId,
        total_dots_to_paint: usize,
        estimated_duration_seconds: u64,
        version: u32,
        event_metadata: EventMetadata,
    ) -> (e: Self)
        ensures
            e matches ArtworkEvent::PaintingStarted { artwork_id: a, total_dots_to_paint: t,
                estimated_duration_seconds: d, version: v, event_metadata: em, .. }
            && a == artwork_id && t == total_dots_to_paint && d == estimated_duration_seconds && v == version
            && em == event_metadata,
    {
        ArtworkEvent::PaintingStarted {
            event_id: EventId::generate(),
            artwork_id,
            total_dots_to_paint,
            estimated_duration_seconds,
            occurred_at: Timestamp::now(),
            version,
            event_metadata,
        }
    }

    /// A dot was painted.
    pub fn dot_painted(
        artwork_id: ArtworkId,
        coordinates: Coordinates,
        color: Color,
        sequence_number: u32,
        version: u32,
        event_metadata: EventMetadata,
    ) -> (e: Self)
        ensures
            e matches ArtworkEvent::DotPainted { artwork_id: a, coordinates: c, color: k, sequence_number: n,
                version: v, event_metadata: em, .. }
            && a == artwork_id && c == coordinates && k == color && n == sequence_number && v == version
            && em == event_metadata,
    {
        ArtworkEvent::DotPainted {
            event_id: EventId::generate(),
            artwork_id,
            coordinates,
            color,
            sequence_number,
            occurred_at: Timestamp::now(),
            version,
            event_metadata,
        }
    }

    /// Painting was paused; `completion_ratio_bits` are the bits of the `f64` ratio.
    pub fn painting_paused(
        artwork_id: ArtworkId,
        painted_dots: usize,
        remaining_dots: usize,
        completion_ratio_bits: u64,
        version: u32,
        event_metadata: EventMetadata,
    ) -> (e: Self)
        ensures
            e matches ArtworkEvent::PaintingPaused { artwork_id: a, painted_dots: p, remaining_dots: r,
                completion_ratio_bits: c, version: v, event_metadata: em, .. }
            && a == artwork_id && p == painted_dots && r == remaining_dots && c == completion_ratio_bits
            && v == version && em == event_metadata,
    {
        ArtworkEvent::PaintingPaused {
            event_id: EventId::generate(),
            artwork_id,
            painted_dots,
            remaining_dots,
            completion_ratio_bits,
            occurred_at: Timestamp::now(),
            version,
            event_metadata,
        }
    }

    /// Painting resumed.
    pub fn painting_resumed(artwork_id: ArtworkId, remaining_dots: usize, version: u32, event_metadata: EventMetadata) -> (e: Self)
        ensures
            e matches ArtworkEvent::PaintingResumed { artwork_id: a, remaining_dots: r, version: v, event_metadata: em, .. }
            && a == artwork_id && r == remaining_dots && v == version && em == event_metadata,
    {
        ArtworkEvent::PaintingResumed {
            event_id: EventId::generate(),
            artwork_id,
            remaining_dots,
            occurred_at: Timestamp::now(),
            version,
            event_metadata,
        }
    }

    /// Painting finished.
    pub fn painting_completed(
        artwork_id: ArtworkId,
        total_dots_painted: usize,
        painting_duration_seconds: u64,
        version: u32,
        event_metadata: EventMetadata,
    ) -> (e: Self)
        ensures
            e matches ArtworkEvent::PaintingCompleted { artwork_id: a, total_dots_painted: t,
                painting_duration_seconds: d, version: v, event_metadata: em, .. }
            && a == artwork_id && t == total_dots_painted && d == painting_duration_seconds && v == version
            && em == event_metadata,
    {
        ArtworkEvent::PaintingCompleted {
            event_id: EventId::generate(),
            artwork_id,
            total_dots_painted,
            painting_duration_seconds,
            occurred_at: Timestamp::now(),
            version,
            event_metadata,
        }
    }

    /// Painting was cancelled; `completion_ratio_bits` are the bits of the `f64` ratio.
    pub fn painting_cancelled(
        artwork_id: ArtworkId,
        painted_dots: usize,
        completion_ratio_bits: u64,
        reason: String,
        version: u32,
        event_metadata: EventMetadata,
    ) -> (e: Self)
        ensures
            e matches ArtworkEvent::PaintingCancelled { artwork_id: a, painted_dots: p, completion_ratio_bits: c,
                reason: why, version: v, event_metadata: em, .. }
            && a == artwork_id && p == painted_dots && c == completion_ratio_bits && why == reason && v == version
            && em == event_metadata,
    {
        ArtworkEvent::PaintingCancelled {
            event_id: EventId::generate(),
            artwork_id,
            painted_dots,
            completion_ratio_bits,
            reason,
            occurred_at: Timestamp::now(),
            version,
            event_metadata,
        }
    }

    /// Painting failed, at `coordinates` where known.
    pub fn painting_error_occurred(
        artwork_id: ArtworkId,
        coordinates: Option<Coordinates>,
        error_message: String,
        retry_count: u32,
        version: u32,
        event_metadata: EventMetadata,
    ) -> (e: Self)
        ensures
            e matches ArtworkEvent::PaintingErrorOccurred { artwork_id: a, coordinates: c, error_message: m,
                retry_count: n, version: v, event_metadata: em, .. }
            && a == artwork_id && c == coordinates && m == error_message && n == retry_count && v == version
            && em == event_metadata,
    {
        ArtworkEvent::PaintingErrorOccurred {
            event_id: EventId::generate(),
            artwork_id,
            coordinates,
            error_message,
            retry_count,
            occurred_at: Timestamp::now(),
            version,
            event_metadata,
        }
    }

    /// The painting state of an artwork was reset; the bits are those of the
    /// `f64` ratio it had reached.
    pub fn artwork_reset(
        artwork_id: ArtworkId,
        previous_completion_ratio_bits: u64,
        version: u32,
        event_metadata: EventMetadata,
    ) -> (e: Self)
        ensures
            e matches ArtworkEvent::ArtworkReset { artwork_id: a, previous_completion_ratio_bits: c, version: v,
                event_metadata: em, .. }
            && a == artwork_id && c == previous_completion_ratio_bits && v == version && em == event_metadata,
    {
        ArtworkEvent::ArtworkReset {
            event_id: EventId::generate(),
            artwork_id,
            previous_completion_ratio_bits,
            occurred_at: Timestamp::now(),
            version,
            event_metadata,
        }
    }

    /// How important the event is; see `event_severity`.
    pub fn severity(&self) -> (r: EventSeverity)
        ensures
            r == event_severity(*self),
    {
        match self {
            ArtworkEvent::ArtworkCreated { .. } => EventSeverity::Info,
            ArtworkEvent::ArtworkMetadataUpdated { .. } => EventSeverity::Info,
            ArtworkEvent::ArtworkCanvasUpdated { .. } => EventSeverity::Info,
            ArtworkEvent::ArtworkDeleted { .. } => EventSeverity::Warning,
            ArtworkEvent::PaintingStarted { .. } => EventSeverity::Info,
            ArtworkEvent::DotPainted { .. } => EventSeverity::Debug,
            ArtworkEvent::PaintingPaused { .. } => EventSeverity::Info,
            ArtworkEvent::PaintingResumed { .. } => EventSeverity::Info,
            ArtworkEvent::PaintingCompleted { .. } => EventSeverity::Info,
            ArtworkEvent::PaintingCancelled { .. } => EventSeverity::Warning,
            ArtworkEvent::PaintingErrorOccurred { .. } => EventSeverity::Error,
            ArtworkEvent::ArtworkReset { .. } => EventSeverity::Warning,
        }
    }

    /// Whether the user is told of the event; see `notifies_user`.
    pub fn should_notify_user(&self) -> (r: bool)
        ensures
            r == notifies_user(*self),
    {
        match self.severity() {
            EventSeverity::Error | EventSeverity::Warning => true,
            EventSeverity::Info => match self {
                ArtworkEvent::PaintingStarted { .. } | ArtworkEvent::PaintingCompleted { .. }
                | ArtworkEvent::ArtworkCreated { .. } => true,
                _ => false,
            },
            EventSeverity::Debug => false,
        }
    }

    /// What the event concerns; see `event_category`.
    pub fn category(&self) -> (r: EventCategory)
        ensures
            r == event_category(*self),
    {
        match self {
            ArtworkEvent::ArtworkCreated { .. } | ArtworkEvent::ArtworkMetadataUpdated { .. }
            | ArtworkEvent::ArtworkCanvasUpdated { .. } | ArtworkEvent::ArtworkDeleted { .. }
            | ArtworkEvent::ArtworkReset { .. } => EventCategory::Artwork,
            _ => EventCategory::Painting,
        }
    }

    /// The coordinates the event is about: those of a painted dot, or of a
    /// failure where they are known.
    pub fn coordinates(&self) -> (r: Option<Coordinates>)
        ensures
            r == (match *self {
                ArtworkEvent::DotPainted { coordinates, .. } => Some(coordinates),
                ArtworkEvent::PaintingErrorOccurred { coordinates, .. } => coordinates,
                _ => None,
            }),
    {
        match self {
            ArtworkEvent::DotPainted { coordinates, .. } => Some(*coordinates),
            ArtworkEvent::PaintingErrorOccurred { coordinates, .. } => *coordinates,
            _ => None,
        }
    }

    /// The one-line description of the event; see `summary_text`. `progress` is
    /// the completion percentage, with one decimal, of the events that carry a
    /// ratio (the caller formats the float); the other events ignore it.
    pub fn summary(&self, progress: &str) -> (s: String)
        ensures
            s@ == summary_text(*self, progress@),
    {
        match self {
            ArtworkEvent::ArtworkCreated { metadata, .. } => {
                let mut s = text::owned("アートワーク「");
                text::push_str(&mut s, metadata.name.as_str());
                text::push_str(&mut s, "」が作成されました");
                s
            },
            ArtworkEvent::ArtworkMetadataUpdated { new_metadata, .. } => {
                let mut s = text::owned("アートワーク「");
                text::push_str(&mut s, new_metadata.name.as_str());
                text::push_str(&mut s, "」のメタデータが更新されました");
                s
            },
            ArtworkEvent::ArtworkCanvasUpdated { drawable_dots, .. } => {
                let mut s = text::owned("キャンバスが更新されました（描画可能ドット: ");
                text::push_decimal(&mut s, *drawable_dots as u64);
                text::push_str(&mut s, "個）");
                s
            },
            ArtworkEvent::ArtworkDeleted { artwork_name, .. } => {
                let mut s = text::owned("アートワーク「");
                text::push_str(&mut s, artwork_name.as_str());
                text::push_str(&mut s, "」が削除されました");
                s
            },
            ArtworkEvent::PaintingStarted { total_dots_to_paint, .. } => {
                let mut s = text::owned("描画を開始しました（");
                text::push_decimal(&mut s, *total_dots_to_paint as u64);
                text::push_str(&mut s, "個のドット）");
                s
            },
            ArtworkEvent::DotPainted { coordinates, sequence_number, .. } => {
                let mut s = text::owned("ドット #");
                text::push_decimal(&mut s, *sequence_number as u64);
                text::push_str(&mut s, " を座標 ");
                let c = coordinates.display_string();
                text::push_str(&mut s, c.as_str());
                text::push_str(&mut s, " に描画しました");
                s
            },
            ArtworkEvent::PaintingPaused { .. } => {
                let mut s = text::owned("描画を一時停止しました（進捗: ");
                text::push_str(&mut s, progress);
                text::push_str(&mut s, "%）");
                s
            },
            ArtworkEvent::PaintingResumed { remaining_dots, .. } => {
                let mut s = text::owned("描画を再開しました（残り: ");
                text::push_decimal(&mut s, *remaining_dots as u64);
                text::push_str(&mut s, "個）");
                s
            },
            ArtworkEvent::PaintingCompleted { total_dots_painted, painting_duration_seconds, .. } => {
                let mut s = text::owned("描画が完了しました（");
                text::push_decimal(&mut s, *total_dots_painted as u64);
                text::push_str(&mut s, "個のドット、");
                text::push_decimal(&mut s, *painting_duration_seconds);
                text::push_str(&mut s, "秒）");
                s
            },
            ArtworkEvent::PaintingCancelled { reason, .. } => {
                let mut s = text::owned("描画がキャンセルされました（進捗: ");
                text::push_str(&mut s, progress);
                text::push_str(&mut s, "%、理由: ");
                text::push_str(&mut s, reason.as_str());
                text::push_str(&mut s, "）");
                s
            },
            ArtworkEvent::PaintingErrorOccurred { error_message, retry_count, .. } => {
                let mut s = text::owned("描画エラーが発生しました（リトライ: ");
                text::push_decimal(&mut s, *retry_count as u64);
                text::push_str(&mut s, "回、エラー: ");
                text::push_str(&mut s, error_message.as_str());
                text::push_str(&mut s, "）");
                s
            },
            ArtworkEvent::ArtworkReset { .. } => {
                let mut s = text::owned("アートワークがリセットされました（以前の進捗: ");
                text::push_str(&mut s, progress);
                text::push_str(&mut s, "%）");
                s
            },
        }
    }
}

impl DomainEvent for ArtworkEvent {
    open spec fn kind_name(&self) -> Seq<char> {
        event_kind_name(*self)
    }

    open spec fn id_of(&self) -> EventId {
        event_header(*self).0
    }

    open spec fn time_of(&self) -> Timestamp {
        event_header(*self).2
    }

    open spec fn version_of(&self) -> u32 {
        event_header(*self).3
    }

    open spec fn aggregate_of(&self) -> Seq<char> {
        uuid_text(event_header(*self).1.bits())
    }

    open spec fn metadata_of(&self) -> MetadataView {
        event_metadata_of(*self)@
    }

    fn event_type(&self) -> (r: &'static str) {
        match self {
            ArtworkEvent::ArtworkCreated { .. } => "ArtworkCreated",
            ArtworkEvent::ArtworkMetadataUpdated { .. } => "ArtworkMetadataUpdated",
            ArtworkEvent::ArtworkCanvasUpdated { .. } => "ArtworkCanvasUpdated",
            ArtworkEvent::ArtworkDeleted { .. } => "ArtworkDeleted",
            ArtworkEvent::PaintingStarted { .. } => "PaintingStarted",
            ArtworkEvent::DotPainted { .. } => "DotPainted",
            ArtworkEvent::PaintingPaused { .. } => "PaintingPaused",
            ArtworkEvent::PaintingResumed { .. } => "PaintingResumed",
            ArtworkEvent::PaintingCompleted { .. } => "PaintingCompleted",
            ArtworkEvent::PaintingCancelled { .. } => "PaintingCancelled",
            ArtworkEvent::PaintingErrorOccurred { .. } => "PaintingErrorOccurred",
            ArtworkEvent::ArtworkReset { .. } => "ArtworkReset",
        }
    }

    fn event_id(&self) -> (r: &EventId) {
        match self {
            ArtworkEvent::ArtworkCreated { event_id, .. }
            | ArtworkEvent::ArtworkMetadataUpdated { event_id, .. }
            | ArtworkEvent::ArtworkCanvasUpdated { event_id, .. }
            | ArtworkEvent::ArtworkDeleted { event_id, .. }
            | ArtworkEvent::PaintingStarted { event_id, .. }
            | ArtworkEvent::DotPainted { event_id, .. }
            | ArtworkEvent::PaintingPaused { event_id, .. }
            | ArtworkEvent::PaintingResumed { event_id, .. }
            | ArtworkEvent::PaintingCompleted { event_id, .. }
            | ArtworkEvent::PaintingCancelled { event_id, .. }
            | ArtworkEvent::PaintingErrorOccurred { event_id, .. }
            | ArtworkEvent::ArtworkReset { event_id, .. } => event_id,
        }
    }

    fn occurred_at(&self) -> (r: Timestamp) {
        match self {
            ArtworkEvent::ArtworkCreated { occurred_at, .. }
            | ArtworkEvent::ArtworkMetadataUpdated { occurred_at, .. }
            | ArtworkEvent::ArtworkCanvasUpdated { occurred_at, .. }
            | ArtworkEvent::ArtworkDeleted { occurred_at, .. }
            | ArtworkEvent::PaintingStarted { occurred_at, .. }
            | ArtworkEvent::DotPainted { occurred_at, .. }
            | ArtworkEvent::PaintingPaused { occurred_at, .. }
            | ArtworkEvent::PaintingResumed { occurred_at, .. }
            | ArtworkEvent::PaintingCompleted { occurred_at, .. }
            | ArtworkEvent::PaintingCancelled { occurred_at, .. }
            | ArtworkEvent::PaintingErrorOccurred { occurred_at, .. }
            | ArtworkEvent::ArtworkReset { occurred_at, .. } => *occurred_at,
        }
    }

    fn version(&self) -> (r: u32) {
        match self {
            ArtworkEvent::ArtworkCreated { version, .. }
            | ArtworkEvent::ArtworkMetadataUpdated { version, .. }
            | ArtworkEvent::ArtworkCanvasUpdated { version, .. }
            | ArtworkEvent::ArtworkDeleted { version, .. }
            | ArtworkEvent::PaintingStarted { version, .. }
            | ArtworkEvent::DotPainted { version, .. }
            | ArtworkEvent::PaintingPaused { version, .. }
            | ArtworkEvent::PaintingResumed { version, .. }
            | ArtworkEvent::PaintingCompleted { version, .. }
            | ArtworkEvent::PaintingCancelled { version, .. }
            | ArtworkEvent::PaintingErrorOccurred { version, .. }
            | ArtworkEvent::ArtworkReset { version, .. } => *version,
        }
    }

    fn aggregate_id(&self) -> (r: String) {
        match self {
            ArtworkEvent::ArtworkCreated { artwork_id, .. }
            | ArtworkEvent::ArtworkMetadataUpdated { artwork_id, .. }
            | ArtworkEvent::ArtworkCanvasUpdated { artwork_id, .. }
            | ArtworkEvent::ArtworkDeleted { artwork_id, .. }
            | ArtworkEvent::PaintingStarted { artwork_id, .. }
            | ArtworkEvent::DotPainted { artwork_id, .. }
            | ArtworkEvent::PaintingPaused { artwork_id, .. }
            | ArtworkEvent::PaintingResumed { artwork_id, .. }
            | ArtworkEvent::PaintingCompleted { artwork_id, .. }
            | ArtworkEvent::PaintingCancelled { artwork_id, .. }
            | ArtworkEvent::PaintingErrorOccurred { artwork_id, .. }
            | ArtworkEvent::ArtworkReset { artwork_id, .. } => artwork_id.as_str(),
        }
    }

    fn metadata(&self) -> (r: &EventMetadata) {
        match self {
            ArtworkEvent::ArtworkCreated { event_metadata, .. }
            | ArtworkEvent::ArtworkMetadataUpdated { event_metadata, .. }
            | ArtworkEvent::ArtworkCanvasUpdated { event_metadata, .. }
            | ArtworkEvent::ArtworkDeleted { event_metadata, .. }
            | ArtworkEvent::PaintingStarted { event_metadata, .. }
            | ArtworkEvent::DotPainted { event_metadata, .. }
            | ArtworkEvent::PaintingPaused { event_metadata, .. }
            | ArtworkEvent::PaintingResumed { event_metadata, .. }
            | ArtworkEvent::PaintingCompleted { event_metadata, .. }
            | ArtworkEvent::PaintingCancelled { event_metadata, .. }
            | ArtworkEvent::PaintingErrorOccurred { event_metadata, .. }
            | ArtworkEvent::ArtworkReset { event_metadata, .. } => event_metadata,
        }
    }
}

} // verus!
