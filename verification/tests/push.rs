use logic::push::{currency_decrements, currency_totals, recurring_red_dot_types, reward_push_plan, RewardFlow, RewardPush as P};

#[test]
fn reward_pushes_follow_the_flow() {
    assert_eq!(
        reward_push_plan(RewardFlow::Claim, true, false),
        vec![P::Room, P::Currency, P::Equip, P::Item, P::TradeOrderRedDot, P::Hero, P::Antique, P::SkinGain, P::Cloth, P::BpScore, P::Material]
    );
    assert_eq!(
        reward_push_plan(RewardFlow::DungeonCompletion, false, true),
        vec![P::Room, P::Equip, P::Currency, P::Item, P::Hero, P::Antique, P::SkinGain, P::Cloth, P::BpScore, P::PlayerInfo, P::Material]
    );
    assert_eq!(
        reward_push_plan(RewardFlow::ItemFirst, true, false),
        vec![P::Room, P::Item, P::TradeOrderRedDot, P::Currency, P::Equip, P::Hero, P::Antique, P::SkinGain, P::Cloth, P::BpScore, P::Material]
    );
}

#[test]
fn currency_changes_are_netted_per_currency() {
    let totals = currency_totals(&[(1, 5), (2, -3), (1, -7), (3, 0), (2, 1)]);
    assert_eq!(totals, vec![(1, -2), (2, -2), (3, 0)]);
    assert_eq!(currency_decrements(&totals), vec![(1, 2), (2, 2)]);
    assert_eq!(currency_totals(&[]), vec![]);
}

#[test]
fn recurring_red_dots_cover_finished_daily_and_weekly_types_once() {
    let daily = 1;
    let weekly = 2;
    let tasks = [(2, true, 0), (1, false, 0), (5, true, 3), (2, false, 4), (1, false, 2)];
    assert_eq!(recurring_red_dot_types(&tasks, daily, weekly), vec![1, 2]);
    assert_eq!(recurring_red_dot_types(&[(1, false, 0), (7, true, 1)], daily, weekly), Vec::<i32>::new());
}
