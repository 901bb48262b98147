use robowar::geom::{RGBAu8, Vec2u32};
use robowar::web::views::{Counter, Index, Message, Messages, NewMessage};

#[test]
fn vec2u32_arithmetic() {
    let a = Vec2u32::new(10, 20);
    let b = Vec2u32::new(3, 4);
    assert_eq!(a.add(b), Vec2u32 { x: 13, y: 24 });
    assert_eq!(a.sub(b), Vec2u32 { x: 7, y: 16 });
    assert_eq!(a.mul(3), Vec2u32 { x: 30, y: 60 });
    assert_eq!(a.div(3), Vec2u32 { x: 3, y: 6 });
}

#[test]
fn rgba_new() {
    let c = RGBAu8::new(240, 248, 255, 255);
    assert_eq!(c, RGBAu8 { red: 240, green: 248, blue: 255, alpha: 255 });
}

#[test]
fn views_hold_their_values() {
    assert_eq!(Index::new("hello".to_string()).content, "hello");
    assert_eq!(Counter::new(42).clicks, 42);
    let _ = Messages::new();
}

#[test]
fn new_message_line() {
    let m = Message {
        id: 1,
        timestamp_micros: 0,
        sender: "alice".to_string(),
        message: "hi there".to_string(),
    };
    assert_eq!(NewMessage::new(m).content, "alice: hi there");
    let empty = Message { id: 2, timestamp_micros: 5, sender: String::new(), message: String::new() };
    assert_eq!(NewMessage::new(empty).content, ": ");
}
