use hexdungeon::hex::Angle;
use hexdungeon::hex::Coordinate;
use hexdungeon::hex::Direction;
use hexdungeon::hex::Position;

fn dirs() -> [Direction; 6] {
    [Direction::YZ, Direction::XZ, Direction::XY, Direction::ZY, Direction::ZX, Direction::YX]
}

fn angles() -> [Angle; 6] {
    [Angle::Forward, Angle::Right, Angle::RightBack, Angle::Back, Angle::LeftBack, Angle::Left]
}

#[test]
fn directions_are_numbered_clockwise() {
    assert_eq!(Direction::all(), dirs().to_vec());
    for (n, d) in dirs().iter().enumerate() {
        assert_eq!(d.to_int() as usize, n);
        assert_eq!(Direction::from_int(n as u8), *d);
        assert_eq!(Direction::from_int(n as u8 + 6), *d);
    }
    for (n, a) in angles().iter().enumerate() {
        assert_eq!(a.to_int() as usize, n);
        assert_eq!(Angle::from_int(n as u8), *a);
    }
}

#[test]
fn turning_adds_the_angle() {
    for (i, d) in dirs().iter().enumerate() {
        for (j, a) in angles().iter().enumerate() {
            assert_eq!(d.turn(*a), dirs()[(i + j) % 6]);
        }
    }
    assert_eq!(Direction::YZ.turn(Angle::Right), Direction::XZ);
    assert_eq!(Direction::YZ.turn(Angle::Left), Direction::YX);
    assert_eq!(Direction::XY.turn(Angle::Back), Direction::YX);
}

#[test]
fn the_angle_between_directions_undoes_a_turn() {
    for d in dirs() {
        for a in angles() {
            assert_eq!(d.turn(a).angle_from(d), a);
        }
    }
    assert_eq!(Direction::XZ.angle_from(Direction::YZ), Angle::Right);
    assert_eq!(Direction::YZ.angle_from(Direction::XZ), Angle::Left);
    assert_eq!(Direction::YZ.angle_from(Direction::ZY), Angle::Back);
}

#[test]
fn neighbours_lie_one_step_away() {
    let c = Coordinate::new(3, -7);
    assert_eq!(c.neighbor(Direction::YZ), Coordinate::new(3, -6));
    assert_eq!(c.neighbor(Direction::XZ), Coordinate::new(4, -7));
    assert_eq!(c.neighbor(Direction::XY), Coordinate::new(4, -8));
    assert_eq!(c.neighbor(Direction::ZY), Coordinate::new(3, -8));
    assert_eq!(c.neighbor(Direction::ZX), Coordinate::new(2, -7));
    assert_eq!(c.neighbor(Direction::YX), Coordinate::new(2, -6));
    for d in dirs() {
        assert_eq!(c.distance(c.neighbor(d)), 1);
        assert_eq!(c.neighbor(d).neighbor(d.turn(Angle::Back)), c);
    }
}

#[test]
fn distance_counts_steps() {
    let o = Coordinate::new(0, 0);
    assert_eq!(o.distance(o), 0);
    assert_eq!(o.distance(Coordinate::new(5, 0)), 5);
    assert_eq!(o.distance(Coordinate::new(0, -4)), 4);
    assert_eq!(o.distance(Coordinate::new(3, -3)), 3);
    assert_eq!(o.distance(Coordinate::new(3, 3)), 6);
    assert_eq!(o.distance(Coordinate::new(-2, -5)), 7);
    assert_eq!(Coordinate::new(10, -4).distance(Coordinate::new(7, 2)), 6);
    assert_eq!(Coordinate::new(7, 2).distance(Coordinate::new(10, -4)), 6);
    let far = Coordinate::new(16_777_216, -16_777_216);
    assert_eq!(far.distance(Coordinate::new(-16_777_216, 16_777_216)), 33_554_432);
}

#[test]
fn directions_towards_a_cell() {
    let o = Coordinate::new(0, 0);
    assert_eq!(o.directions_to(o), vec![]);
    for d in dirs() {
        assert_eq!(o.directions_to(o.neighbor(d).neighbor(d)), vec![d]);
    }
    assert_eq!(o.directions_to(Coordinate::new(2, -1)), vec![Direction::XZ, Direction::XY]);
    assert_eq!(o.directions_to(Coordinate::new(1, 1)), vec![Direction::XZ, Direction::YZ]);
    assert_eq!(o.directions_to(Coordinate::new(-1, -1)), vec![Direction::ZY, Direction::ZX]);
    assert_eq!(o.directions_to(Coordinate::new(-2, 1)), vec![Direction::ZX, Direction::YX]);
    assert_eq!(o.directions_to(Coordinate::new(1, -2)), vec![Direction::XY, Direction::ZY]);
    assert_eq!(o.directions_to(Coordinate::new(-1, 2)), vec![Direction::YZ, Direction::YX]);
    assert_eq!(
        Coordinate::new(5, 5).directions_to(Coordinate::new(7, 4)),
        vec![Direction::XZ, Direction::XY]
    );
}

#[test]
fn the_clockwise_direction_towards_a_cell() {
    let o = Coordinate::new(0, 0);
    assert_eq!(o.direction_to_cw(o), None);
    for d in dirs() {
        let one = o.neighbor(d);
        assert_eq!(o.direction_to_cw(one), Some(d));
        assert_eq!(o.direction_to_cw(one.neighbor(d.turn(Angle::Left))), Some(d));
        assert_eq!(
            o.direction_to_cw(one.neighbor(d.turn(Angle::Right))),
            Some(d.turn(Angle::Right))
        );
    }
    assert_eq!(
        Coordinate::new(4, 4).direction_to_cw(Coordinate::new(4, 9)),
        Some(Direction::YZ)
    );
}

#[test]
fn positions_turn_and_step() {
    let p = Position::new(Coordinate::new(1, 1), Direction::XY);
    assert_eq!(p.turn(Angle::Left), Position::new(Coordinate::new(1, 1), Direction::XZ));
    assert_eq!(p.step(Direction::XY), Position::new(Coordinate::new(2, 0), Direction::XY));
    assert_eq!(p.step(Direction::ZX), Position::new(Coordinate::new(0, 1), Direction::XY));
    assert!(Coordinate::new(16_777_216, 0).is_in_world());
    assert!(!Coordinate::new(16_777_217, 0).is_in_world());
    assert!(!Coordinate::new(0, -16_777_217).is_in_world());
    assert!(Coordinate::new(134_217_728, -134_217_728).is_in_reach());
    assert!(!Coordinate::new(134_217_729, 0).is_in_reach());
    assert!(!Coordinate::new(0, -134_217_729).is_in_reach());
}
