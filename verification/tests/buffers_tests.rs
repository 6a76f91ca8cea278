use scopeclock::buffers::{BufferId, DisplayBuffers};
use scopeclock::picture::Picture;

fn picture(capacity: usize, dots: &[usize]) -> Picture {
    let mut pic = Picture::new(vec![0; capacity]);
    for (k, exposure) in dots.iter().enumerate() {
        pic.add_dot(k as u16, k as u16, *exposure).unwrap();
    }
    pic
}

fn roles_are_sound(buffers: &DisplayBuffers) -> bool {
    !(buffers.canvas.is_some() && buffers.next_display.is_some())
}

#[test]
fn display_starts_with_a_picture_waiting() {
    let buffers = DisplayBuffers::new(picture(64, &[1]), picture(32, &[2]));
    assert_eq!(buffers.current_buffer, BufferId::First);
    assert_eq!(buffers.current_display.tx_buffer.len(), 64);
    assert_eq!(buffers.next_display.as_ref().map(|p| p.tx_buffer.len()), Some(32));
    assert!(buffers.canvas.is_none());
    assert!(roles_are_sound(&buffers));
    assert_eq!(BufferId::First.other(), BufferId::Second);
    assert_eq!(BufferId::Second.other(), BufferId::First);
}

#[test]
fn swap_frees_the_buffer_that_was_on_display() {
    let mut buffers = DisplayBuffers::new(picture(64, &[1]), picture(32, &[2]));
    buffers.current_display.current_part = 1;
    let shown = buffers.current_display.tx_buffer.clone();
    assert!(buffers.select_next_picture());
    assert_eq!(buffers.current_buffer, BufferId::Second);
    assert_eq!(buffers.current_display.tx_buffer.len(), 32);
    assert_eq!(buffers.current_display.parts, vec![(0, 16)]);
    assert_eq!(buffers.current_display.current_part, 0);
    assert_eq!(buffers.canvas, Some(shown));
    assert!(buffers.next_display.is_none());
    assert!(roles_are_sound(&buffers));
}

#[test]
fn swap_without_a_waiting_picture_changes_nothing() {
    let mut buffers = DisplayBuffers::new(picture(64, &[1]), picture(32, &[2]));
    assert!(buffers.select_next_picture());
    buffers.current_display.current_part = 1;
    assert!(!buffers.select_next_picture());
    assert_eq!(buffers.current_buffer, BufferId::Second);
    assert_eq!(buffers.current_display.current_part, 1);
    assert_eq!(buffers.canvas.as_ref().map(|b| b.len()), Some(64));
    assert!(buffers.next_display.is_none());
}

#[test]
fn canvas_is_handed_out_once() {
    let mut buffers = DisplayBuffers::new(picture(64, &[1]), picture(32, &[2]));
    assert!(buffers.take_canvas().is_none());
    buffers.select_next_picture();
    let canvas = buffers.take_canvas();
    assert_eq!(canvas.as_ref().map(|b| b.len()), Some(64));
    assert!(buffers.take_canvas().is_none());
    assert!(buffers.canvas.is_none() && buffers.next_display.is_none());
}

#[test]
fn finished_picture_comes_next() {
    let mut buffers = DisplayBuffers::new(picture(64, &[1]), picture(32, &[2]));
    buffers.select_next_picture();
    let canvas = buffers.take_canvas().unwrap();
    let mut drawn = Picture::new(canvas);
    drawn.add_dot(1, 1, 3).unwrap();
    assert!(buffers.publish(drawn).is_ok());
    assert_eq!(buffers.next_display.as_ref().map(|p| p.parts.clone()), Some(vec![(0, 24)]));
    assert!(buffers.canvas.is_none());
    assert!(roles_are_sound(&buffers));
    assert!(buffers.select_next_picture());
    assert_eq!(buffers.current_buffer, BufferId::First);
    assert_eq!(buffers.current_display.tx_buffer.len(), 64);
    assert_eq!(buffers.canvas.as_ref().map(|b| b.len()), Some(32));
}

#[test]
fn third_buffer_is_refused() {
    let mut buffers = DisplayBuffers::new(picture(64, &[1]), picture(32, &[2]));
    let stray = picture(16, &[1]);
    let back = buffers.publish(stray).unwrap_err();
    assert_eq!(back.tx_buffer.len(), 16);
    assert_eq!(buffers.next_display.as_ref().map(|p| p.tx_buffer.len()), Some(32));
    assert_eq!(buffers.return_canvas(vec![0; 8]), Err(vec![0; 8]));
    buffers.select_next_picture();
    let back = buffers.publish(picture(16, &[1])).unwrap_err();
    assert_eq!(back.tx_buffer.len(), 16);
    assert_eq!(buffers.return_canvas(vec![0; 8]), Err(vec![0; 8]));
    assert_eq!(buffers.canvas.as_ref().map(|b| b.len()), Some(64));
    assert!(roles_are_sound(&buffers));
}

#[test]
fn canvas_can_come_back_undrawn() {
    let mut buffers = DisplayBuffers::new(picture(64, &[1]), picture(32, &[2]));
    buffers.select_next_picture();
    let canvas = buffers.take_canvas().unwrap();
    assert_eq!(buffers.return_canvas(canvas), Ok(()));
    assert_eq!(buffers.canvas.as_ref().map(|b| b.len()), Some(64));
    assert!(buffers.next_display.is_none());
}

#[test]
fn segments_are_handed_out_in_drawing_order() {
    let mut buffers = DisplayBuffers::new(picture(64, &[1, 0, 2]), picture(32, &[2]));
    assert_eq!(buffers.next_segment(), Some((0, 8)));
    assert_eq!(buffers.next_segment(), Some((8, 8)));
    assert_eq!(buffers.next_segment(), Some((8, 24)));
    assert_eq!(buffers.current_buffer, BufferId::First);
    assert_eq!(buffers.next_segment(), Some((0, 16)));
    assert_eq!(buffers.current_buffer, BufferId::Second);
    assert_eq!(buffers.current_display.current_part, 1);
    assert_eq!(buffers.canvas.as_ref().map(|b| b.len()), Some(64));
}

#[test]
fn display_repeats_while_nothing_is_published() {
    let mut buffers = DisplayBuffers::new(picture(64, &[1, 2]), picture(32, &[2]));
    buffers.next_display = None;
    let before = buffers.current_display.tx_buffer.clone();
    for round in 0..50 {
        assert_eq!(buffers.next_segment(), Some((0, 8)), "round {}", round);
        assert_eq!(buffers.next_segment(), Some((8, 24)), "round {}", round);
        assert!(buffers.current_display.current_part <= buffers.current_display.parts.len());
    }
    assert_eq!(buffers.current_display.tx_buffer, before);
    assert_eq!(buffers.current_display.parts, vec![(0, 8), (8, 24)]);
    assert_eq!(buffers.current_buffer, BufferId::First);
    assert!(buffers.canvas.is_none() && buffers.next_display.is_none());
}

#[test]
fn picture_without_segments_hands_out_nothing() {
    let mut buffers = DisplayBuffers::new(picture(64, &[]), picture(32, &[]));
    assert_eq!(buffers.next_segment(), None);
    assert_eq!(buffers.current_buffer, BufferId::Second);
    assert_eq!(buffers.next_segment(), None);
    assert_eq!(buffers.current_display.current_part, 0);
}
