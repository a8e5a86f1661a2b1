use rover::command::{Camera, Command, Direction, HorizontalDirection, Speed, VerticalDirection};
use rover::request::Request;

fn all_commands() -> Vec<Command> {
    let mut all = Vec::new();
    for dir in [Direction::Forward, Direction::Neutral, Direction::Backward] {
        for steer in [
            HorizontalDirection::Left,
            HorizontalDirection::Neutral,
            HorizontalDirection::Right,
        ] {
            for speed in [Speed::Slow, Speed::Fast] {
                all.push(Command::Drive(dir, steer, speed));
            }
        }
    }
    all.push(Command::SteerStop(Speed::Slow));
    all.push(Command::SteerStop(Speed::Fast));
    all.push(Command::UseCamera(Camera::Driving));
    all.push(Command::UseCamera(Camera::Turret));
    for steer in [
        HorizontalDirection::Left,
        HorizontalDirection::Neutral,
        HorizontalDirection::Right,
    ] {
        all.push(Command::CameraMoveHorizontal(steer));
    }
    for tilt in [VerticalDirection::Up, VerticalDirection::Neutral, VerticalDirection::Down] {
        all.push(Command::CameraMoveVertical(tilt));
    }
    all.push(Command::StealthMode(true));
    all.push(Command::StealthMode(false));
    all
}

#[test]
fn every_command_encodes_to_header_plus_payload() {
    for command in all_commands() {
        let request = command.to_request();
        let wire = request.to_bytes();
        assert_eq!(wire.len(), 23 + request.n as usize);
        assert_eq!(request.n as usize, request.bytes.len());
        assert_eq!(&wire[..3], &[0x4D, 0x4F, 0x5F]);
        assert_eq!(wire[3], 0x4F);
        assert_eq!(wire[4], request.id);
        assert_eq!(wire[15], request.n);
        assert_eq!(&wire[23..], request.bytes.as_slice());
        for (i, b) in wire[..23].iter().enumerate() {
            if i > 4 && i != 15 {
                assert_eq!(*b, 0);
            }
        }
    }
}

#[test]
fn drive_forward_left_fast() {
    let r = Command::Drive(Direction::Forward, HorizontalDirection::Left, Speed::Fast).to_request();
    assert_eq!(r.id, 0xFA);
    assert_eq!(r.bytes, vec![6, 0]);
    assert_eq!(r.n, 2);
}

#[test]
fn drive_backward_right_slow() {
    let r =
        Command::Drive(Direction::Backward, HorizontalDirection::Right, Speed::Slow).to_request();
    assert_eq!(r.id, 0xFA);
    assert_eq!(r.bytes, vec![9, 1]);
}

#[test]
fn use_camera_turret() {
    let r = Command::UseCamera(Camera::Turret).to_request();
    assert_eq!(r.id, 19);
    assert_eq!(r.bytes, vec![6, 1]);
}

#[test]
fn use_camera_driving() {
    let r = Command::UseCamera(Camera::Driving).to_request();
    assert_eq!(r.id, 19);
    assert_eq!(r.bytes, vec![6, 2]);
}

#[test]
fn stealth_mode_on_and_off() {
    let on = Command::StealthMode(true).to_request();
    assert_eq!(on.id, 14);
    assert_eq!(on.bytes, vec![94]);
    let off = Command::StealthMode(false).to_request();
    assert_eq!(off.id, 14);
    assert_eq!(off.bytes, vec![95]);
}

#[test]
fn drive_table() {
    let table = [
        (Direction::Forward, HorizontalDirection::Left, 6),
        (Direction::Forward, HorizontalDirection::Neutral, 1),
        (Direction::Forward, HorizontalDirection::Right, 7),
        (Direction::Neutral, HorizontalDirection::Left, 5),
        (Direction::Neutral, HorizontalDirection::Neutral, 0),
        (Direction::Neutral, HorizontalDirection::Right, 4),
        (Direction::Backward, HorizontalDirection::Left, 8),
        (Direction::Backward, HorizontalDirection::Neutral, 2),
        (Direction::Backward, HorizontalDirection::Right, 9),
    ];
    for (dir, steer, code) in table {
        let r = Command::Drive(dir, steer, Speed::Slow).to_request();
        assert_eq!(r.id, 0xFA);
        assert_eq!(r.bytes, vec![code, 1]);
    }
}

#[test]
fn steer_stop_and_camera_moves() {
    assert_eq!(Command::SteerStop(Speed::Fast).to_request().bytes, vec![3, 0]);
    assert_eq!(Command::SteerStop(Speed::Slow).to_request().bytes, vec![3, 1]);
    let pans = [
        (HorizontalDirection::Left, 4),
        (HorizontalDirection::Neutral, 5),
        (HorizontalDirection::Right, 6),
    ];
    for (steer, code) in pans {
        let r = Command::CameraMoveHorizontal(steer).to_request();
        assert_eq!((r.id, r.bytes), (14, vec![code]));
    }
    let tilts =
        [(VerticalDirection::Up, 0), (VerticalDirection::Neutral, 1), (VerticalDirection::Down, 2)];
    for (tilt, code) in tilts {
        let r = Command::CameraMoveVertical(tilt).to_request();
        assert_eq!((r.id, r.bytes), (14, vec![code]));
    }
}

#[test]
fn speed_and_camera_bytes() {
    assert_eq!(Speed::Slow.encode(), 1);
    assert_eq!(Speed::Fast.encode(), 0);
    assert_eq!(Camera::Driving.encode(), 2);
    assert_eq!(Camera::Turret.encode(), 1);
}

#[test]
fn heartbeat_wire_form() {
    let r = Request::heartbeat();
    assert_eq!(r, Request { c: 0x4F, id: 0xFF, n: 0, bytes: vec![] });
    let wire = r.to_bytes();
    let mut expected = vec![0u8; 23];
    expected[0] = 0x4D;
    expected[1] = 0x4F;
    expected[2] = 0x5F;
    expected[3] = 0x4F;
    expected[4] = 0xFF;
    assert_eq!(wire, expected);
}

#[test]
fn start_requests() {
    assert_eq!(Request::video_start(), Request { c: 0x4F, id: 4, n: 4, bytes: vec![1, 0, 0, 0] });
    assert_eq!(Request::audio_start(), Request { c: 0x4F, id: 8, n: 1, bytes: vec![1] });
}

#[test]
fn integers_go_out_least_significant_byte_first() {
    let r = Request::from_u32s(2, &[0x0102_0304, 0xFFFF_FFFE, 0]);
    assert_eq!(r.id, 2);
    assert_eq!(r.n, 12);
    assert_eq!(r.bytes, vec![4, 3, 2, 1, 0xFE, 0xFF, 0xFF, 0xFF, 0, 0, 0, 0]);
    let wire = r.to_bytes();
    assert_eq!(wire.len(), 35);
    assert_eq!(wire[15], 12);
    assert_eq!(&wire[23..27], &[4, 3, 2, 1]);
}

#[test]
fn builders() {
    assert_eq!(
        Request::from_device_control(7, 1),
        Request { c: 0x4F, id: 0xFA, n: 2, bytes: vec![7, 1] }
    );
    assert_eq!(
        Request::from_camera_request(94),
        Request { c: 0x4F, id: 14, n: 1, bytes: vec![94] }
    );
    assert_eq!(
        Request::from_command_byte(19, &[6, 2]),
        Request { c: 0x4F, id: 19, n: 2, bytes: vec![6, 2] }
    );
}

#[test]
fn longest_payloads_declare_their_length() {
    let full = vec![7u8; 255];
    let r = Request::from_command_byte(1, &full);
    assert_eq!(r.n, 255);
    assert_eq!(r.bytes, full);
    let wire = r.to_bytes();
    assert_eq!(wire.len(), 23 + 255);
    assert_eq!(wire[15], 255);

    let ints: Vec<u32> = (0..63u32).collect();
    let r = Request::from_u32s(3, &ints);
    assert_eq!(r.n, 252);
    assert_eq!(r.bytes.len(), 252);
    assert_eq!(&r.bytes[248..], &[62, 0, 0, 0]);

    let none = Request::from_u32s(3, &[]);
    assert_eq!(none, Request { c: 0x4F, id: 3, n: 0, bytes: vec![] });
}
