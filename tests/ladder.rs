use ranger_bot::fixed::Fixed;
use ranger_bot::helper::Helper;
use ranger_bot::position::Position;

fn whole(n: i64) -> Fixed {
    Fixed::from_int(n)
}

#[test]
fn short_ladder_scenario() {
    let rungs = Helper::build_profit_targets(whole(92_435), whole(200), whole(90), whole(250), Position::Short);
    let targets: Vec<Fixed> = rungs.iter().map(|r| r.target_price).collect();
    assert_eq!(targets, vec![whole(92_185), whole(91_935), whole(91_685), whole(91_435)]);
    let fractions: Vec<Fixed> = rungs.iter().map(|r| r.fraction).collect();
    assert_eq!(
        fractions,
        vec![Fixed::from_scaled(20, 2), Fixed::from_scaled(30, 2), Fixed::from_scaled(30, 2), Fixed::from_scaled(20, 2)]
    );
    let stops: Vec<Option<Fixed>> = rungs.iter().map(|r| r.sl).collect();
    assert_eq!(stops, vec![Some(whole(92_435)), Some(whole(92_185)), Some(whole(91_935)), None]);
    assert_eq!(Helper::contract_amount(whole(92_435), whole(200), whole(90)).raw, 19_473_143);
    let sizes: Vec<i64> = rungs.iter().map(|r| r.size_btc.raw).collect();
    assert_eq!(sizes, vec![3_894_628, 5_841_942, 5_841_942, 3_894_631]);
}

#[test]
fn ladder_sizes_sum_to_contract_amount() {
    for (entry, margin, lev) in [(92_435, 200, 90), (100_000, 50, 20), (64_321, 77, 35), (3, 1, 1)] {
        for side in [Position::Long, Position::Short] {
            let rungs = Helper::build_profit_targets(whole(entry), whole(margin), whole(lev), whole(100), side);
            assert_eq!(rungs.len(), 4);
            let sum: i64 = rungs.iter().map(|r| r.size_btc.raw).sum();
            assert_eq!(sum, Helper::contract_amount(whole(entry), whole(margin), whole(lev)).raw);
        }
    }
}

#[test]
fn long_ladder_walks_up() {
    let rungs = Helper::build_profit_targets(whole(100_000), whole(50), whole(20), whole(500), Position::Long);
    let targets: Vec<Fixed> = rungs.iter().map(|r| r.target_price).collect();
    assert_eq!(targets, vec![whole(100_500), whole(101_000), whole(101_500), whole(102_000)]);
    assert_eq!(rungs[2].sl, Some(whole(101_000)));
    assert!(Helper::build_profit_targets(whole(100_000), whole(50), whole(20), whole(500), Position::Flat).is_empty());
}
