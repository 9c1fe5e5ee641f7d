use tm_bbcode::participation::{
    Participation, Reward, RewardPolicy, Round, Thread, ThreadGroup, ThreadType,
};

fn thread(name: &str, state: Participation, floor: usize, pid: &str) -> Thread {
    Thread {
        name: name.to_string(),
        path: String::new(),
        state,
        floor,
        pid: pid.to_string(),
        duplicate: vec![],
        choices: None,
        max_choice: None,
        thread_type: ThreadType::Poll,
    }
}

fn reward(ww: i32, tsb: i32, energy: i32, credit: i32) -> Reward {
    Reward { ww, tsb, energy, credit }
}

const LINK: &str = "forum.php?mod=redirect&goto=findpost&pid=";

#[test]
fn thread_status_markup() {
    let t = thread("A组", Participation::Valid, 12, "99");
    assert_eq!(t.generate_bbcode(), format!("[url={LINK}99]A组#12[/url]"));
    let t = thread("A组", Participation::Missed, 12, "99");
    assert_eq!(t.generate_bbcode(), "A组");
    let t = thread("A组", Participation::Invalid, 12, "99");
    assert_eq!(t.generate_bbcode(), format!("[url={LINK}99][color=DarkRed]A组#12[/color][/url]"));
}

fn group() -> ThreadGroup {
    ThreadGroup::new_group(
        "初赛".to_string(),
        vec![
            thread("A组", Participation::Valid, 1, "10"),
            thread("B组", Participation::Missed, 0, ""),
            thread("C组", Participation::Invalid, 3, "30"),
        ],
    )
}

#[test]
fn group_missed_info() {
    assert_eq!(group().missed_info(), Some("初赛【B组；C组】".to_string()));
    let mut g = group();
    g.name = Some(String::new());
    assert_eq!(g.missed_info(), Some("B组；C组".to_string()));
    let g = ThreadGroup::new_group("初赛".to_string(), vec![thread("A组", Participation::Valid, 1, "1")]);
    assert_eq!(g.missed_info(), None);
}

#[test]
fn single_thread_group() {
    let g = ThreadGroup::new_single(thread("结果", Participation::Missed, 0, ""));
    assert_eq!(g.missed_info(), Some("结果".to_string()));
    assert_eq!(g.generate_bbcode(), "结果");
    let g = ThreadGroup::new_single(thread("结果", Participation::Valid, 5, "7"));
    assert_eq!(g.missed_info(), None);
    assert_eq!(g.generate_bbcode(), format!("[url={LINK}7]结果#5[/url]"));
}

#[test]
fn group_markup() {
    assert_eq!(
        group().generate_bbcode(),
        format!("初赛【[url={LINK}10]A组#1[/url]；B组；[url={LINK}30][color=DarkRed]C组#3[/color][/url]】")
    );
}

#[test]
fn round_status() {
    let round = Round {
        name: "第一轮".to_string(),
        group: vec![group(), ThreadGroup::new_single(thread("结果", Participation::Missed, 0, ""))],
    };
    assert!(round.is_missed());
    assert_eq!(round.missed_info(2), Some("  missed 第一轮 初赛【B组；C组】 结果".to_string()));
    assert_eq!(
        round.generate_bbcode(1),
        format!("1. 初赛【[url={LINK}10]A组#1[/url]；B组；[url={LINK}30][color=DarkRed]C组#3[/color][/url]】 结果")
    );

    let clean = Round {
        name: "第二轮".to_string(),
        group: vec![ThreadGroup::new_single(thread("结果", Participation::Valid, 2, "5"))],
    };
    assert!(!clean.is_missed());
    assert_eq!(clean.missed_info(0), None);
    assert_eq!(clean.generate_bbcode(12), format!("12. [url={LINK}5]结果#2[/url]"));
}

#[test]
fn reward_text() {
    assert_eq!(reward(5, 0, 3, 2).generate_reward_text(), "5ww + 3能量值 + 2积分");
    assert_eq!(reward(0, 10, 0, 0).generate_reward_text(), "10tsb");
    assert_eq!(reward(0, 0, 0, 0).generate_reward_text(), "");
    assert_eq!(reward(-4, 0, 0, 1).generate_reward_text(), "1积分");
}

#[test]
fn reward_policy_by_missed_rounds() {
    let policy = RewardPolicy {
        complete: reward(50, 0, 0, 0),
        missing1: reward(40, 0, 0, 0),
        missing2: reward(30, 0, 0, 0),
        missing3: reward(20, 0, 0, 0),
        missing4: reward(10, 0, 0, 0),
    };
    assert_eq!(policy.generate_reward_text(0), "50ww");
    assert_eq!(policy.generate_reward_text(1), "40ww");
    assert_eq!(policy.generate_reward_text(2), "30ww");
    assert_eq!(policy.generate_reward_text(3), "20ww");
    assert_eq!(policy.generate_reward_text(4), "10ww");
    assert_eq!(policy.generate_reward_text(100), "10ww");
}
