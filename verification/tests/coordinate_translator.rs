use game_of_life::coordinate_translator::{
    scale_axis, scale_to_local, CoordinateTranslator, IdentityCoordinateTranslator, Rect,
    ScalingCoordinateTranslator, ViewInfo,
};
use game_of_life::grid::Position;

struct FixedViewInfo {
    view: Rect,
    client: Rect,
}

impl ViewInfo for FixedViewInfo {
    fn view_rect(&self) -> Rect {
        self.view
    }

    fn client_rect(&self) -> Rect {
        self.client
    }
}

fn shifted_view() -> FixedViewInfo {
    FixedViewInfo {
        view: Rect { width: 1000, height: 1000, origin: Position { x: 771, y: 0 } },
        client: Rect { width: 1000, height: 1000, origin: Position { x: 0, y: 0 } },
    }
}

#[test]
fn converts_to_local() {
    let coordinate_translator = ScalingCoordinateTranslator::new(shifted_view());
    let global = Position { x: 772, y: 7 };
    let local = coordinate_translator.to_local(&global);
    let expected = Some(Position { x: 1, y: 7 });
    assert_eq!(expected, local);
}

#[test]
fn converts_to_out_of_bounds_local() {
    let coordinate_translator = ScalingCoordinateTranslator::new(shifted_view());
    let global = Position { x: 3, y: 3 };
    let local = coordinate_translator.to_local(&global);
    assert_eq!(None, local);
}

#[test]
fn entity_returns_itself() {
    let coordinate_translator = IdentityCoordinateTranslator;
    let expected = Position { x: 10, y: 20 };
    let actual = coordinate_translator.to_local(&expected);
    assert_eq!(Some(expected), actual);
}

#[test]
fn scales_by_whole_client_units_per_view_unit() {
    let view_info = FixedViewInfo {
        view: Rect { width: 400, height: 100, origin: Position { x: 10, y: 20 } },
        client: Rect { width: 1000, height: 300, origin: Position { x: 0, y: 0 } },
    };
    let coordinate_translator = ScalingCoordinateTranslator::new(view_info);
    // 1000 / 400 is 2 and 300 / 100 is 3
    assert_eq!(
        Some(Position { x: 2 * 7, y: 3 * 5 }),
        coordinate_translator.to_local(&Position { x: 17, y: 25 })
    );
    assert_eq!(
        Some(Position { x: 0, y: 0 }),
        coordinate_translator.to_local(&Position { x: 10, y: 20 })
    );
}

#[test]
fn client_border_is_inside_and_beyond_is_outside() {
    let rects = (
        Rect { width: 100, height: 100, origin: Position { x: 5, y: 5 } },
        Rect { width: 100, height: 100, origin: Position { x: 0, y: 0 } },
    );
    let global = Position { x: 105, y: 105 };
    assert_eq!(Some(Position { x: 100, y: 100 }), scale_to_local(&rects.0, &rects.1, &global));
    let global = Position { x: 106, y: 105 };
    assert_eq!(None, scale_to_local(&rects.0, &rects.1, &global));
    let global = Position { x: 105, y: 106 };
    assert_eq!(None, scale_to_local(&rects.0, &rects.1, &global));
    let global = Position { x: 4, y: 5 };
    assert_eq!(None, scale_to_local(&rects.0, &rects.1, &global));
    let global = Position { x: 5, y: 4 };
    assert_eq!(None, scale_to_local(&rects.0, &rects.1, &global));
}

#[test]
fn view_larger_than_client_maps_everything_to_the_origin() {
    let view = Rect { width: 200, height: 200, origin: Position { x: 50, y: 50 } };
    let client = Rect { width: 100, height: 100, origin: Position { x: 0, y: 0 } };
    for (x, y) in [(50, 50), (249, 249), (0, 0), (4000, 7)] {
        assert_eq!(
            Some(Position { x: 0, y: 0 }),
            scale_to_local(&view, &client, &Position { x, y })
        );
    }
}

#[test]
fn view_without_extent_translates_nothing() {
    let client = Rect { width: 100, height: 100, origin: Position { x: 0, y: 0 } };
    let flat = Rect { width: 100, height: 0, origin: Position { x: 0, y: 0 } };
    let thin = Rect { width: 0, height: 100, origin: Position { x: 0, y: 0 } };
    assert_eq!(None, scale_to_local(&flat, &client, &Position { x: 1, y: 0 }));
    assert_eq!(None, scale_to_local(&thin, &client, &Position { x: 0, y: 1 }));
    assert_eq!(None, scale_axis(7, 0, 0, 100));
}

#[test]
fn scales_large_coordinates_without_wrapping() {
    assert_eq!(Some(u32::MAX), scale_axis(1, 0, 1, u32::MAX));
    assert_eq!(None, scale_axis(2, 0, 1, u32::MAX));
    assert_eq!(None, scale_axis(u32::MAX, 0, 1, u32::MAX));
    assert_eq!(Some(u32::MAX), scale_axis(u32::MAX, 0, u32::MAX, u32::MAX));
    assert_eq!(Some(u32::MAX - 1), scale_axis(u32::MAX, 1, u32::MAX, u32::MAX));
    assert_eq!(None, scale_axis(u32::MAX, 1, 7, 10));
    assert_eq!(None, scale_axis(0, u32::MAX, 1, 1));
    assert_eq!(Some(0), scale_axis(0, u32::MAX, 2, 1));
    assert_eq!(Some(6), scale_axis(13, 10, 10, 25));
}

struct MovingViewInfo {
    asked_for_view: std::cell::Cell<u32>,
    asked_for_client: std::cell::Cell<u32>,
}

impl ViewInfo for MovingViewInfo {
    // The view moves one unit to the right each time it is asked for.
    fn view_rect(&self) -> Rect {
        let asked = self.asked_for_view.get();
        self.asked_for_view.set(asked + 1);
        Rect { width: 100, height: 100, origin: Position { x: asked, y: 0 } }
    }

    fn client_rect(&self) -> Rect {
        self.asked_for_client.set(self.asked_for_client.get() + 1);
        Rect { width: 100, height: 100, origin: Position { x: 0, y: 0 } }
    }
}

#[test]
fn asks_for_the_place_of_the_view_at_each_translation() {
    let view_info = MovingViewInfo {
        asked_for_view: std::cell::Cell::new(0),
        asked_for_client: std::cell::Cell::new(0),
    };
    let coordinate_translator = ScalingCoordinateTranslator::new(view_info);
    let global = Position { x: 2, y: 9 };
    assert_eq!(Some(Position { x: 2, y: 9 }), coordinate_translator.to_local(&global));
    assert_eq!(Some(Position { x: 1, y: 9 }), coordinate_translator.to_local(&global));
    assert_eq!(Some(Position { x: 0, y: 9 }), coordinate_translator.to_local(&global));
    assert_eq!(None, coordinate_translator.to_local(&global));
}
