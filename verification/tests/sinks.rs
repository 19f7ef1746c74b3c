use qoi_display::geometry::{Point, Rectangle, Size};
use qoi_display::recorder::{Recorder, Refused};
use qoi_display::sink::{PixelSink, PixelWrite, Traced};
use qoi_display::view::Clipped;

fn pixel(x: i32, y: i32, color: u16) -> PixelWrite {
    PixelWrite { at: Point { x, y }, color }
}

fn rect(x: i32, y: i32, width: u32, height: u32) -> Rectangle {
    Rectangle { top_left: Point { x, y }, size: Size { width, height } }
}

#[test]
fn recorder_starts_empty() {
    let recorder = Recorder::new();
    assert!(recorder.asked().is_empty());
    assert_eq!(recorder.limit(), usize::MAX);
    assert_eq!(Recorder::with_limit(3).limit(), 3);
}

#[test]
fn recorder_keeps_writes_in_order() {
    let mut recorder = Recorder::new();
    assert_eq!(recorder.write(pixel(1, 2, 3)), Ok(()));
    assert_eq!(recorder.write(pixel(4, 5, 6)), Ok(()));
    assert_eq!(recorder.asked(), &vec![pixel(1, 2, 3), pixel(4, 5, 6)]);
}

#[test]
fn recorder_refuses_past_its_limit() {
    let mut recorder = Recorder::with_limit(1);
    assert_eq!(recorder.write(pixel(0, 0, 1)), Ok(()));
    assert_eq!(recorder.write(pixel(1, 0, 2)), Err(Refused));
    assert_eq!(recorder.write(pixel(2, 0, 3)), Err(Refused));
    assert_eq!(recorder.asked().len(), 3);
}

#[test]
fn recorder_with_no_room_refuses_at_once() {
    let mut recorder = Recorder::with_limit(0);
    assert_eq!(recorder.write(pixel(0, 0, 1)), Err(Refused));
    assert_eq!(recorder.asked(), &vec![pixel(0, 0, 1)]);
}

#[test]
fn clipped_moves_what_is_inside() {
    let mut target = Traced::new(Recorder::new());
    {
        let mut view = Clipped::new(&mut target, rect(2, 3, 2, 2), Point { x: 0, y: 0 });
        assert_eq!(view.write(pixel(2, 3, 10)), Ok(()));
        assert_eq!(view.write(pixel(3, 4, 11)), Ok(()));
    }
    assert_eq!(target.sink().asked(), &vec![pixel(0, 0, 10), pixel(1, 1, 11)]);
}

#[test]
fn clipped_drops_what_is_outside() {
    let mut target = Traced::new(Recorder::with_limit(0));
    {
        let mut view = Clipped::new(&mut target, rect(2, 3, 2, 2), Point { x: 0, y: 0 });
        assert_eq!(view.write(pixel(1, 3, 10)), Ok(()));
        assert_eq!(view.write(pixel(4, 3, 10)), Ok(()));
        assert_eq!(view.write(pixel(2, 2, 10)), Ok(()));
        assert_eq!(view.write(pixel(2, 5, 10)), Ok(()));
    }
    assert!(target.sink().asked().is_empty());
}

#[test]
fn clipped_puts_the_corner_where_asked() {
    let mut target = Traced::new(Recorder::new());
    {
        let mut view = Clipped::new(&mut target, rect(0, 0, 4, 4), Point { x: -7, y: 20 });
        assert_eq!(view.write(pixel(0, 0, 1)), Ok(()));
        assert_eq!(view.write(pixel(3, 2, 2)), Ok(()));
    }
    assert_eq!(target.sink().asked(), &vec![pixel(-7, 20, 1), pixel(-4, 22, 2)]);
}

#[test]
fn clipped_hands_the_error_on() {
    let mut target = Traced::new(Recorder::with_limit(1));
    {
        let mut view = Clipped::new(&mut target, rect(0, 0, 2, 2), Point { x: 0, y: 0 });
        assert_eq!(view.write(pixel(0, 0, 1)), Ok(()));
        assert_eq!(view.write(pixel(5, 5, 2)), Ok(()));
        assert_eq!(view.write(pixel(1, 1, 3)), Err(Refused));
    }
    assert_eq!(target.sink().asked(), &vec![pixel(0, 0, 1), pixel(1, 1, 3)]);
}

#[test]
fn clipped_drops_what_would_land_past_the_last_coordinate() {
    let mut target = Traced::new(Recorder::new());
    {
        let window = rect(0, 0, 10, 10);
        let mut view = Clipped::new(&mut target, window, Point { x: i32::MAX - 1, y: 0 });
        assert_eq!(view.write(pixel(1, 0, 1)), Ok(()));
        assert_eq!(view.write(pixel(2, 0, 2)), Ok(()));
    }
    assert_eq!(target.sink().asked(), &vec![pixel(i32::MAX, 0, 1)]);
}

#[test]
fn clipped_views_nest() {
    let mut target = Traced::new(Recorder::new());
    let outer = Clipped::new(&mut target, rect(0, 0, 3, 3), Point { x: 10, y: 10 });
    let mut middle = Traced::new(outer);
    {
        let mut inner = Clipped::new(&mut middle, rect(1, 1, 2, 2), Point { x: 0, y: 0 });
        assert_eq!(inner.write(pixel(0, 0, 1)), Ok(()));
        assert_eq!(inner.write(pixel(2, 1, 2)), Ok(()));
    }
    drop(middle);
    assert_eq!(target.sink().asked(), &vec![pixel(11, 10, 2)]);
}

#[test]
fn traced_hands_writes_and_answers_on() {
    let mut target = Traced::new(Recorder::with_limit(1));
    assert_eq!(target.write(pixel(1, 2, 3)), Ok(()));
    assert_eq!(target.write(pixel(4, 5, 6)), Err(Refused));
    assert_eq!(target.sink().asked(), &vec![pixel(1, 2, 3), pixel(4, 5, 6)]);
    let recorder = target.into_sink();
    assert_eq!(recorder.asked().len(), 2);
    assert_eq!(recorder.limit(), 1);
}
