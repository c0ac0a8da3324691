use redstone::blocks::Air;
use redstone::blocks::Block;
use redstone::blocks::Direction;
use redstone::blocks::Iron;
use redstone::blocks::RedstoneBlock;
use redstone::blocks::RedstoneDust;
use redstone::blocks::Repeater;

#[test]
fn oposite_maps_all_four() {
    assert_eq!(Direction::oposite(&Direction::North), Direction::South);
    assert_eq!(Direction::oposite(&Direction::South), Direction::North);
    assert_eq!(Direction::oposite(&Direction::West), Direction::East);
    assert_eq!(Direction::oposite(&Direction::East), Direction::West);
}

#[test]
fn oposite_is_involutive() {
    for d in [
        Direction::North,
        Direction::South,
        Direction::West,
        Direction::East,
    ] {
        assert_eq!(Direction::oposite(&Direction::oposite(&d)), d);
    }
}

#[test]
fn is_oposite_pairs() {
    assert!(Direction::North.is_oposite(&Direction::South));
    assert!(Direction::South.is_oposite(&Direction::North));
    assert!(Direction::West.is_oposite(&Direction::East));
    assert!(Direction::East.is_oposite(&Direction::West));
    assert!(!Direction::North.is_oposite(&Direction::North));
    assert!(!Direction::North.is_oposite(&Direction::West));
    assert!(!Direction::East.is_oposite(&Direction::South));
}

#[test]
fn constructors_give_default_state() {
    assert_eq!(RedstoneDust::new().power_level, 0);
    let r = Repeater::new(Direction::West);
    assert_eq!(r.facing, Direction::West);
    assert!(!r.powered);
    let _ = Air::new();
    let _ = Iron::new();
    let _ = RedstoneBlock::new();
}

#[test]
fn placement_equality_ignores_transient_state() {
    let weak = Block::from(RedstoneDust { power_level: 0 });
    let strong = Block::from(RedstoneDust { power_level: 15 });
    assert!(weak == strong);

    let off = Block::from(Repeater {
        facing: Direction::East,
        powered: false,
    });
    let on = Block::from(Repeater {
        facing: Direction::East,
        powered: true,
    });
    assert!(off == on);
}

#[test]
fn placement_equality_minds_kind_and_facing() {
    let air = Block::from(Air::new());
    let iron = Block::from(Iron::new());
    let dust = Block::from(RedstoneDust::new());
    let source = Block::from(RedstoneBlock::new());
    let east = Block::from(Repeater::new(Direction::East));
    let north = Block::from(Repeater::new(Direction::North));
    assert!(air != iron);
    assert!(dust != source);
    assert!(air != dust);
    assert!(iron != source);
    assert!(east != north);
    assert!(east != air);
}

#[test]
fn same_block_is_field_exact() {
    let weak = Block::from(RedstoneDust { power_level: 0 });
    let strong = Block::from(RedstoneDust { power_level: 15 });
    assert!(!weak.same_block(&strong));
    assert!(weak.same_block(&Block::from(RedstoneDust::new())));

    let off = Block::from(Repeater {
        facing: Direction::East,
        powered: false,
    });
    let on = Block::from(Repeater {
        facing: Direction::East,
        powered: true,
    });
    assert!(!off.same_block(&on));
    assert!(off.same_block(&Block::from(Repeater::new(Direction::East))));
}

#[test]
fn update_reorients_only_repeaters() {
    let mut b = Block::from(Repeater::new(Direction::North));
    b.update(Direction::East);
    match b {
        Block::Repeater(r) => {
            assert_eq!(r.facing, Direction::East);
            assert!(!r.powered);
        }
        _ => panic!("repeater changed kind"),
    }

    let mut dust = Block::from(RedstoneDust { power_level: 9 });
    dust.update(Direction::South);
    match dust {
        Block::RedstoneDust(d) => assert_eq!(d.power_level, 9),
        _ => panic!("dust changed kind"),
    }

    let mut air = Block::from(Air::new());
    air.update(Direction::West);
    assert!(matches!(air, Block::Air(_)));
}
