use midi_looper::options::check_can_show;
use midi_looper::options::shorten;
use midi_looper::options::LoopOption;
use midi_looper::options::NextSlotOption;
use midi_looper::playback::SlotId;

fn options(names: &[&str]) -> Vec<LoopOption> {
    let available: Vec<(String, Option<u8>)> = names.iter().map(|n| (n.to_string(), None)).collect();
    LoopOption::from_available(&available)
}

#[test]
fn next_slot_choices_are_none_and_the_letters() {
    let all = NextSlotOption::all_options();
    assert_eq!(all.len(), 27);
    assert_eq!(all[0], NextSlotOption(None));
    for (place, letter) in ('A'..='Z').enumerate() {
        assert_eq!(all[place + 1], NextSlotOption(Some(SlotId(letter))));
    }
    assert_eq!(all[0].to_text(), "--");
    assert_eq!(all[1].to_text(), "A");
    assert_eq!(all[26].to_text(), "Z");
}

#[test]
fn long_names_are_cut_at_32_bytes() {
    let exactly_35 = "a".repeat(35);
    let exactly_36 = "b".repeat(36);
    assert_eq!(shorten(&exactly_35), exactly_35);
    assert_eq!(shorten(&exactly_36), format!("{}...", "b".repeat(32)));
    assert_eq!(shorten(""), "");
    // Two-byte characters: 18 of them are 36 bytes, and byte 32 is a boundary.
    let accents = "é".repeat(18);
    assert!(check_can_show(&accents));
    assert_eq!(shorten(&accents), format!("{}...", "é".repeat(16)));
    // With one byte in front, byte 32 falls inside a character.
    let shifted = format!("x{}", "é".repeat(18));
    assert!(!check_can_show(&shifted));
    assert!(check_can_show(&format!("x{}", "é".repeat(17))));
}

#[test]
fn loop_choices_follow_the_loops_on_offer() {
    let long = "Seven Nation Army With Bass Guitar - bass - bars 1-4";
    let list = options(&["short", long]);
    assert_eq!(list.len(), 3);
    assert_eq!((list[0].index, list[0].name.as_str()), (None, "--"));
    assert_eq!((list[1].index, list[1].name.as_str()), (Some(0), "short"));
    assert_eq!((list[2].index, list[2].name.as_str()), (Some(1), "Seven Nation Army With Bass Guit..."));
    assert_eq!(options(&[]).len(), 1);
}

#[test]
fn the_selected_choice_is_found_by_name() {
    let long = "Seven Nation Army With Bass Guitar - bass - bars 1-4";
    let list = options(&["alpha", "beta", long, "alphabet"]);
    let found = |name: &str| LoopOption::find_selected(&list, name).map(|o| o.index);
    assert_eq!(found("--"), Some(None));
    assert_eq!(found("beta"), Some(Some(1)));
    assert_eq!(found(long), Some(Some(2)));
    // A name that begins with a shown name is taken for it: the first wins.
    assert_eq!(found("alphabet"), Some(Some(0)));
    assert_eq!(found("betamax"), Some(Some(1)));
    assert_eq!(found("gamma"), None);
    assert_eq!(found(""), None);
    assert_eq!(LoopOption::find_selected(&[], "--").map(|o| o.index), None);
    assert_eq!(LoopOption::find_selected(&[], "x").map(|o| o.index), None);
}

#[test]
fn dots_at_the_end_of_a_shown_name_do_not_count() {
    let list = vec![
        LoopOption { index: Some(0), name: "ab......".to_string() },
        LoopOption { index: Some(1), name: "cd..".to_string() },
        LoopOption { index: Some(2), name: "...".to_string() },
    ];
    let found = |name: &str| LoopOption::find_selected(&list, name).map(|o| o.index);
    assert_eq!(found("abc"), Some(Some(0)));
    assert_eq!(found("cd"), Some(Some(2))); // "cd.." keeps its two dots; "..." is empty and begins all
    assert_eq!(found("cd..x"), Some(Some(1)));
    assert_eq!(found("zzz"), Some(Some(2)));
    let copy = list[0].clone();
    assert_eq!((copy.index, copy.name.as_str()), (Some(0), "ab......"));
}
