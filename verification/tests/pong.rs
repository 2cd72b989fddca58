use justshow::pong::{Ball, Pad, PadDirection, Player, PongCanvas, V2};

fn pad(player: Player, y: i16, direction: PadDirection) -> Pad {
    Pad { position: V2 { x: 0, y }, size: V2 { x: 20, y: 150 }, direction, player }
}

#[test]
fn pads_move_and_stay_inside() {
    let window = V2 { x: 600, y: 800 };
    let mut left = pad(Player::Left, 100, PadDirection::Down);
    left.update(window);
    assert_eq!(left.position.y, 115);
    assert_eq!(left.position.x, 8);
    let mut right = pad(Player::Right, 5, PadDirection::Up);
    right.update(window);
    assert_eq!(right.position.y, 0);
    assert_eq!(right.position.x, 600 - 28);
    let mut low = pad(Player::Left, 645, PadDirection::Down);
    low.update(window);
    assert_eq!(low.position.y, 650);
}

#[test]
fn ball_bounces_off_pad_and_walls() {
    let window = V2 { x: 600, y: 800 };
    let left = Pad { position: V2 { x: 8, y: 0 }, size: V2 { x: 20, y: 150 }, direction: PadDirection::Still, player: Player::Left };
    let right = Pad { position: V2 { x: 572, y: 0 }, size: V2 { x: 20, y: 150 }, direction: PadDirection::Still, player: Player::Right };
    let mut ball = Ball { position: V2 { x: 30, y: 100 }, size: V2 { x: 32, y: 32 }, direction: V2 { x: -5, y: 5 } };
    ball.update(window, &left, &right);
    assert_eq!(ball.position.x, 28);
    assert_eq!(ball.direction.x, 5);
    assert_eq!(ball.position.y, 105);
    let mut top = Ball { position: V2 { x: 300, y: 2 }, size: V2 { x: 32, y: 32 }, direction: V2 { x: 5, y: -5 } };
    top.update(window, &left, &right);
    assert_eq!(top.position.y, 0);
    assert_eq!(top.direction.y, 5);
}

#[test]
fn ball_stops_where_no_pad_is() {
    let window = V2 { x: 600, y: 800 };
    let left = Pad { position: V2 { x: 8, y: 500 }, size: V2 { x: 20, y: 150 }, direction: PadDirection::Still, player: Player::Left };
    let right = left;
    let mut ball = Ball { position: V2 { x: 3, y: 100 }, size: V2 { x: 32, y: 32 }, direction: V2 { x: -5, y: 5 } };
    ball.update(window, &left, &right);
    assert_eq!(ball.position.x, 0);
    assert_eq!(ball.direction.x, 0);
    assert_eq!(ball.direction.y, 0);
}

#[test]
fn reset_draws_from_the_number() {
    let window = V2 { x: 600, y: 800 };
    let mut ball = Ball { position: V2 { x: 0, y: 0 }, size: V2 { x: 32, y: 32 }, direction: V2 { x: 0, y: 0 } };
    ball.reset(window, 1);
    assert_eq!(ball.position.x, 57);
    assert_eq!(ball.position.y, 63);
    assert_eq!(ball.direction.x, 5);
    assert_eq!(ball.direction.y, 5);
}

#[test]
fn canvas_rectangle_writes_le_bytes() {
    let mut canvas = PongCanvas::new(3, 2);
    canvas.rectangle(2, 1, 1, 1, 0x11223344);
    let data = canvas.data();
    assert_eq!(&data[0..16], &[0; 16]);
    assert_eq!(&data[16..24], &[0x44, 0x33, 0x22, 0x11, 0x44, 0x33, 0x22, 0x11]);
    let ball = Ball { position: V2 { x: 0, y: 0 }, size: V2 { x: 1, y: 1 }, direction: V2 { x: 0, y: 0 } };
    ball.display(&mut canvas);
    assert_eq!(&canvas.data()[0..4], &[0xff, 0xff, 0xff, 0]);
}
