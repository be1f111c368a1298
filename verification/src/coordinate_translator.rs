//! From a point of the embedding surface to a point of the drawing surface.

use crate::grid::Position;
use vstd::prelude::*;

verus! {

/// Maps a position of the embedding surface to a position of the drawing
/// surface, or tells that it lies outside.
pub trait CoordinateTranslator {
    /// Whether `local` is an answer that this translator may give for
    /// `global`. A translator that looks at its surroundings may give more
    /// than one.
    spec fn translates(&self, global: Position, local: Option<Position>) -> bool;

    /// The local position of `position`, or `None` where it has none.
    fn to_local(&self, position: &Position) -> (local: Option<Position>)
        ensures
            self.translates(*position, local),
    ;
}

/// A box on a surface: where it begins and how far it extends.
#[derive(Debug, Clone, Copy)]
pub struct Rect {
    pub origin: Position,
    pub width: u32,
    pub height: u32,
}

/// Where the drawing surface is at present: its box on the screen and its
/// own logical box. Both may differ from one call to the next.
pub trait ViewInfo {
    /// The box that the surface takes on the screen.
    fn view_rect(&self) -> Rect;

    /// The box of the surface in its own units.
    fn client_rect(&self) -> Rect;
}

/// Along one axis: the offset of `global` from the view's origin, times the
/// whole number of client units per view unit. `None` where the result is
/// negative or beyond the client's extent, and for a view without extent.
pub open spec fn scaled_axis(global: u32, origin: u32, view_extent: u32, client_extent: u32)
    -> Option<u32> {
    let local = (global - origin) * (client_extent / view_extent);
    if view_extent != 0 && 0 <= local <= client_extent {
        Some(local as u32)
    } else {
        None
    }
}

/// The local position of `global`, where both axes have one.
pub open spec fn scaled(view: Rect, client: Rect, global: Position) -> Option<Position> {
    match (
        scaled_axis(global.x, view.origin.x, view.width, client.width),
        scaled_axis(global.y, view.origin.y, view.height, client.height),
    ) {
        (Some(x), Some(y)) => Some(Position { x, y }),
        _ => None,
    }
}

/// Scales one coordinate from the view's box into the client's.
pub fn scale_axis(global: u32, origin: u32, view_extent: u32, client_extent: u32) -> (local:
    Option<u32>)
    ensures
        local == scaled_axis(global, origin, view_extent, client_extent),
{
    if view_extent == 0 {
        return None;
    }
    let scale: u32 = client_extent / view_extent;
    if global < origin {
        assert(scale != 0 ==> (global - origin) * scale < 0) by (nonlinear_arith)
            requires
                global - origin < 0,
                scale >= 0,
        ;
        assert(scale == 0 ==> (global - origin) * scale == 0) by (nonlinear_arith);
        if scale == 0 {
            Some(0)
        } else {
            None
        }
    } else {
        assert(0 <= (global - origin) * scale <= 0xffff_ffff * 0xffff_ffff) by (nonlinear_arith)
            requires
                0 <= global - origin <= 0xffff_ffff,
                0 <= scale <= 0xffff_ffff,
        ;
        let local: u64 = ((global - origin) as u64) * (scale as u64);
        if local > client_extent as u64 {
            None
        } else {
            Some(local as u32)
        }
    }
}

/// Scales a position of the embedding surface into the client's box, given
/// where the view is.
pub fn scale_to_local(view_rect: &Rect, client_rect: &Rect, position: &Position) -> (local: Option<
    Position,
>)
    ensures
        local == scaled(*view_rect, *client_rect, *position),
{
    let x = scale_axis(position.x, view_rect.origin.x, view_rect.width, client_rect.width);
    let y = scale_axis(position.y, view_rect.origin.y, view_rect.height, client_rect.height);
    match (x, y) {
        (Some(x), Some(y)) => Some(Position { x, y }),
        _ => None,
    }
}

/// The translator for a drawing surface that is shown at an offset and at a
/// scale of its own.
pub struct ScalingCoordinateTranslator<V: ViewInfo> {
    view_info: V,
}

impl<V: ViewInfo> ScalingCoordinateTranslator<V> {
    /// Where the translator asks for the place of the view.
    pub closed spec fn view_info(&self) -> V {
        self.view_info
    }

    /// A translator that asks `view_info` at each translation.
    pub fn new(view_info: V) -> (translator: Self)
        ensures
            translator.view_info() == view_info,
    {
        ScalingCoordinateTranslator { view_info }
    }
}

impl<V: ViewInfo> CoordinateTranslator for ScalingCoordinateTranslator<V> {
    /// Wherever the view is, the answer is the position scaled by some pair
    /// of boxes.
    open spec fn translates(&self, global: Position, local: Option<Position>) -> bool {
        exists|view: Rect, client: Rect| local == #[trigger] scaled(view, client, global)
    }

    /// Asks where the view is, once for each box, and scales by the answer.
    fn to_local(&self, position: &Position) -> (local: Option<Position>) {
        let view_rect = self.view_info.view_rect();
        let client_rect = self.view_info.client_rect();
        scale_to_local(&view_rect, &client_rect, position)
    }
}

/// The translator for coordinates that are local already.
pub struct IdentityCoordinateTranslator;

impl CoordinateTranslator for IdentityCoordinateTranslator {
    /// The one answer is the position itself.
    open spec fn translates(&self, global: Position, local: Option<Position>) -> bool {
        local == Some(global)
    }

    fn to_local(&self, position: &Position) -> (local: Option<Position>) {
        Some(*position)
    }
}

} // verus!
