//! The commands a caller can give, and the request each maps to.

use crate::request::{Request, CONTROL_CHANNEL};
use vstd::prelude::*;

verus! {

#[derive(Debug, Clone, Copy, PartialEq, Eq)]
pub enum Direction {
    Forward,
    Neutral,
    Backward,
}

#[derive(Debug, Clone, Copy, PartialEq, Eq)]
pub enum HorizontalDirection {
    Left,
    Neutral,
    Right,
}

#[derive(Debug, Clone, Copy, PartialEq, Eq)]
pub enum Speed {
    Slow,
    Fast,
}

#[derive(Debug, Clone, Copy, PartialEq, Eq)]
pub enum Camera {
    Driving,
    Turret,
}

#[derive(Debug, Clone, Copy, PartialEq, Eq)]
pub enum VerticalDirection {
    Up,
    Neutral,
    Down,
}

#[derive(Debug, Clone, Copy, PartialEq, Eq)]
pub enum Command {
    Drive(Direction, HorizontalDirection, Speed),
    SteerStop(Speed),
    UseCamera(Camera),
    CameraMoveHorizontal(HorizontalDirection),
    CameraMoveVertical(VerticalDirection),
    StealthMode(bool),
}

/// Command byte of the drive requests.
pub const DRIVE: u8 = 0xFA;

/// Command byte of the camera-selection request.
pub const SELECT_CAMERA: u8 = 19;

/// Command byte of the pan, tilt and stealth requests.
pub const CAMERA_CONTROL: u8 = 14;

/// The wheel code of a drive direction and a steer.
pub open spec fn drive_code(dir: Direction, steer: HorizontalDirection) -> u8 {
    match (dir, steer) {
        (Direction::Forward, HorizontalDirection::Left) => 6,
        (Direction::Forward, HorizontalDirection::Neutral) => 1,
        (Direction::Forward, HorizontalDirection::Right) => 7,
        (Direction::Neutral, HorizontalDirection::Left) => 5,
        (Direction::Neutral, HorizontalDirection::Neutral) => 0,
        (Direction::Neutral, HorizontalDirection::Right) => 4,
        (Direction::Backward, HorizontalDirection::Left) => 8,
        (Direction::Backward, HorizontalDirection::Neutral) => 2,
        (Direction::Backward, HorizontalDirection::Right) => 9,
    }
}

impl Speed {
    pub open spec fn code(self) -> u8 {
        match self {
            Speed::Slow => 1,
            Speed::Fast => 0,
        }
    }

    /// The speed's byte on the wire.
    pub fn encode(self) -> (b: u8)
        ensures
            b == self.code(),
    {
        match self {
            Speed::Slow => 1,
            Speed::Fast => 0,
        }
    }
}

impl Camera {
    pub open spec fn code(self) -> u8 {
        match self {
            Camera::Driving => 2,
            Camera::Turret => 1,
        }
    }

    /// The camera's byte on the wire.
    pub fn encode(self) -> (b: u8)
        ensures
            b == self.code(),
    {
        match self {
            Camera::Driving => 2,
            Camera::Turret => 1,
        }
    }
}

impl Command {
    /// The command byte of the request that carries the command.
    pub open spec fn command_byte(self) -> u8 {
        match self {
            Command::Drive(_, _, _) => DRIVE,
            Command::SteerStop(_) => DRIVE,
            Command::UseCamera(_) => SELECT_CAMERA,
            Command::CameraMoveHorizontal(_) => CAMERA_CONTROL,
            Command::CameraMoveVertical(_) => CAMERA_CONTROL,
            Command::StealthMode(_) => CAMERA_CONTROL,
        }
    }

    /// The payload of the request that carries the command.
    pub open spec fn payload(self) -> Seq<u8> {
        match self {
            Command::Drive(dir, steer, speed) => seq![drive_code(dir, steer), speed.code()],
            Command::SteerStop(speed) => seq![3u8, speed.code()],
            Command::UseCamera(camera) => seq![6u8, camera.code()],
            Command::CameraMoveHorizontal(steer) => seq![
                match steer {
                    HorizontalDirection::Left => 4u8,
                    HorizontalDirection::Neutral => 5u8,
                    HorizontalDirection::Right => 6u8,
                },
            ],
            Command::CameraMoveVertical(tilt) => seq![
                match tilt {
                    VerticalDirection::Up => 0u8,
                    VerticalDirection::Neutral => 1u8,
                    VerticalDirection::Down => 2u8,
                },
            ],
            Command::StealthMode(enable) => seq![if enable { 94u8 } else { 95u8 }],
        }
    }

    /// The request that carries the command.
    pub fn to_request(self) -> (r: Request)
        ensures
            r.c == CONTROL_CHANNEL,
            r.id == self.command_byte(),
            r.bytes@ == self.payload(),
            r.wf(),
    {
        match self {
            Command::Drive(dir, steer, speed) => {
                let code: u8 = match dir {
                    Direction::Forward => match steer {
                        HorizontalDirection::Left => 6,
                        HorizontalDirection::Neutral => 1,
                        HorizontalDirection::Right => 7,
                    },
                    Direction::Neutral => match steer {
                        HorizontalDirection::Left => 5,
                        HorizontalDirection::Neutral => 0,
                        HorizontalDirection::Right => 4,
                    },
                    Direction::Backward => match steer {
                        HorizontalDirection::Left => 8,
                        HorizontalDirection::Neutral => 2,
                        HorizontalDirection::Right => 9,
                    },
                };
                Request::from_device_control(code, speed.encode())
            },
            Command::SteerStop(speed) => Request::from_device_control(3, speed.encode()),
            Command::UseCamera(camera) => {
                let payload: Vec<u8> = vec![6u8, camera.encode()];
                Request::from_command_byte(SELECT_CAMERA, payload.as_slice())
            },
            Command::CameraMoveHorizontal(steer) => Request::from_camera_request(
                match steer {
                    HorizontalDirection::Left => 4,
                    HorizontalDirection::Neutral => 5,
                    HorizontalDirection::Right => 6,
                },
            ),
            Command::CameraMoveVertical(tilt) => Request::from_camera_request(
                match tilt {
                    VerticalDirection::Up => 0,
                    VerticalDirection::Neutral => 1,
                    VerticalDirection::Down => 2,
                },
            ),
            Command::StealthMode(enable) => Request::from_camera_request(
                if enable {
                    94
                } else {
                    95
                },
            ),
        }
    }
}

/// Every command's request goes on the wire as the three marker bytes and
/// the rest of the 23-byte header, followed by a payload of the declared
/// length.
pub proof fn lemma_command_wire(command: Command, r: Request)
    requires
        r.c == CONTROL_CHANNEL,
        r.id == command.command_byte(),
        r.bytes@ == command.payload(),
        r.wf(),
    ensures
        r.wire().len() == 23 + r.n,
        r.wire().subrange(0, 3) == seq![0x4Du8, 0x4Fu8, 0x5Fu8],
        r.wire()[4] == command.command_byte(),
        r.wire()[15] as int == command.payload().len(),
        r.wire().subrange(23, r.wire().len() as int) == command.payload(),
        1 <= command.payload().len() <= 2,
{
    assert(r.wire().subrange(0, 3) =~= seq![0x4Du8, 0x4Fu8, 0x5Fu8]);
    assert(r.wire().subrange(23, r.wire().len() as int) =~= command.payload());
}

} // verus!
