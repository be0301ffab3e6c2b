use auto_wallpaper::clock::{Boundaries, ClockTime};
use auto_wallpaper::model::ScheduleModel;
use auto_wallpaper::schedule::{sort_entries, Schedule, ScheduleEntry};

fn at(h: u32, m: u32, s: u32) -> ClockTime {
    ClockTime::from_hms(h, m, s).unwrap()
}

fn entry(h: u32, m: u32, wallpaper: &str) -> ScheduleEntry {
    ScheduleEntry { time: at(h, m, 0), wallpaper: wallpaper.to_string() }
}

fn names(entries: &[ScheduleEntry]) -> Vec<String> {
    entries.iter().map(|e| e.wallpaper.clone()).collect()
}

#[test]
fn sort_orders_by_time() {
    let sorted = sort_entries(vec![entry(18, 0, "B"), entry(7, 0, "A"), entry(12, 30, "C")]);
    assert_eq!(sorted, vec![entry(7, 0, "A"), entry(12, 30, "C"), entry(18, 0, "B")]);
}

#[test]
fn sort_keeps_ties_in_given_order() {
    let sorted = sort_entries(vec![
        entry(7, 0, "first"),
        entry(6, 0, "early"),
        entry(7, 0, "second"),
        entry(7, 0, "third"),
        entry(6, 0, "early too"),
    ]);
    assert_eq!(names(&sorted), vec!["early", "early too", "first", "second", "third"]);
}

#[test]
fn sort_of_nothing_is_nothing() {
    assert_eq!(sort_entries(Vec::new()), Vec::new());
}

#[test]
fn sort_keeps_every_entry() {
    let mut given = Vec::new();
    for i in 0..50u32 {
        given.push(entry((i * 7) % 24, (i * 13) % 60, &format!("w{i}")));
    }
    let mut expected = given.clone();
    expected.sort_by_key(|e| (e.time.secs, e.time.frac));
    assert_eq!(sort_entries(given), expected);
}

#[test]
fn empty_schedule_is_refused() {
    assert!(Schedule::new(Vec::new()).is_none());
}

#[test]
fn wraparound() {
    let schedule = Schedule::new(vec![entry(7, 0, "A"), entry(18, 0, "B")]).unwrap();
    assert_eq!(schedule.active_wallpaper(at(22, 0, 0)), "A");
    assert_eq!(schedule.active_wallpaper(at(3, 0, 0)), "A");
}

#[test]
fn active_is_first_entry_later_than_now() {
    let schedule = Schedule::new(vec![entry(18, 0, "B"), entry(7, 0, "A"), entry(12, 0, "C")]).unwrap();
    assert_eq!(schedule.len(), 3);
    assert_eq!(schedule.active_wallpaper(at(6, 59, 59)), "A");
    assert_eq!(schedule.active_wallpaper(at(7, 0, 0)), "C");
    assert_eq!(schedule.active_wallpaper(at(11, 0, 0)), "C");
    assert_eq!(schedule.active_wallpaper(at(12, 0, 0)), "B");
    assert_eq!(schedule.active_wallpaper(at(17, 59, 59)), "B");
    assert_eq!(schedule.active_wallpaper(at(18, 0, 0)), "A");
    assert_eq!(schedule.active_index(at(18, 0, 0)), 0);
    assert_eq!(schedule.active_index(at(12, 0, 0)), 2);
}

#[test]
fn active_among_ties_is_the_earlier_declared() {
    let schedule = Schedule::new(vec![entry(9, 0, "x"), entry(9, 0, "y")]).unwrap();
    assert_eq!(schedule.active_wallpaper(at(8, 0, 0)), "x");
    assert_eq!(schedule.active_wallpaper(at(9, 0, 0)), "x");
}

#[test]
fn single_entry_is_always_active() {
    let schedule = Schedule::new(vec![entry(9, 0, "only")]).unwrap();
    assert_eq!(schedule.active_wallpaper(at(0, 0, 0)), "only");
    assert_eq!(schedule.active_wallpaper(at(9, 0, 0)), "only");
    assert_eq!(schedule.active_wallpaper(at(23, 59, 59)), "only");
    assert_eq!(schedule.previous_wallpaper(at(10, 0, 0)), "only");
}

#[test]
fn previous_is_the_entry_before_the_active_one() {
    let schedule = Schedule::new(vec![entry(7, 0, "A"), entry(12, 0, "C"), entry(18, 0, "B")]).unwrap();
    assert_eq!(schedule.previous_wallpaper(at(8, 0, 0)), "A");
    assert_eq!(schedule.previous_wallpaper(at(13, 0, 0)), "C");
    assert_eq!(schedule.previous_wallpaper(at(3, 0, 0)), "B");
    assert_eq!(schedule.previous_wallpaper(at(20, 0, 0)), "B");
    assert_eq!(schedule.previous_index(at(20, 0, 0)), 2);
}

#[test]
fn entries_come_back_sorted() {
    let schedule = Schedule::new(vec![entry(18, 0, "B"), entry(7, 0, "A")]).unwrap();
    assert_eq!(schedule.entries(), &vec![entry(7, 0, "A"), entry(18, 0, "B")]);
}

#[test]
fn fraction_of_a_second_counts() {
    let schedule = Schedule::new(vec![
        ScheduleEntry { time: ClockTime { secs: 100, frac: 500 }, wallpaper: "late".to_string() },
        ScheduleEntry { time: ClockTime { secs: 100, frac: 0 }, wallpaper: "soon".to_string() },
    ])
    .unwrap();
    assert_eq!(schedule.active_wallpaper(ClockTime { secs: 99, frac: 0 }), "soon");
    assert_eq!(schedule.active_wallpaper(ClockTime { secs: 100, frac: 0 }), "late");
    assert_eq!(schedule.active_wallpaper(ClockTime { secs: 100, frac: 500 }), "soon");
}

#[test]
fn both_models_answer_alike() {
    let fixed = ScheduleModel::Fixed(Boundaries::standard());
    assert_eq!(fixed.active_wallpaper(at(10, 0, 0)), "day.jpg");
    assert_eq!(fixed.previous(at(10, 0, 0)), "morning.jpg");
    assert_eq!(fixed.active_wallpaper(at(5, 0, 0)), "night.jpg");
    assert_eq!(fixed.previous(at(5, 0, 0)), "evening.jpg");
    let listed = ScheduleModel::Listed(Schedule::new(vec![entry(7, 0, "A"), entry(18, 0, "B")]).unwrap());
    assert_eq!(listed.active_wallpaper(at(10, 0, 0)), "B");
    assert_eq!(listed.previous(at(10, 0, 0)), "A");
    assert_eq!(listed.active_wallpaper(at(22, 0, 0)), "A");
    assert_eq!(listed.previous(at(22, 0, 0)), "B");
}
