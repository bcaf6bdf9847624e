use polyvc::classifier::{
    has_unexpected_visibility_string, is_interesting, visibility_structure_simplified,
};
use polyvc::profile::{VisibilityProfile, MAX_SUBSET};

fn flags(text: &str) -> Vec<bool> {
    text.chars().map(|c| c == '1').collect()
}

fn profile(rows: &[&str], members: &str, vc_dimension: usize, small: bool) -> VisibilityProfile {
    let visible = rows.iter().map(|row| flags(row)).collect();
    VisibilityProfile::new(visible, flags(members), vc_dimension, small).unwrap()
}

fn renumbered(rows: &[&str], members: &str, perm: &[usize]) -> VisibilityProfile {
    let old: Vec<Vec<bool>> = rows.iter().map(|row| flags(row)).collect();
    let old_members = flags(members);
    let visible = perm
        .iter()
        .map(|&i| perm.iter().map(|&j| old[i][j]).collect())
        .collect();
    let new_members = perm.iter().map(|&i| old_members[i]).collect();
    VisibilityProfile::new(visible, new_members, 4, true).unwrap()
}

const LONELY_HEXAGON: [&str; 6] = ["100000", "010010", "001000", "000101", "010010", "000101"];

const CHAIN: [&str; 6] = ["110000", "111000", "011100", "001100", "000010", "000001"];

const PATCHY: [&str; 5] = ["01100", "10110", "11011", "01101", "00110"];

#[test]
fn hexagon_with_known_signature_is_not_interesting() {
    let hexagon = profile(&LONELY_HEXAGON, "111100", 4, true);
    assert_eq!(hexagon.vc_dimension(), 4);
    assert!(hexagon.is_small());
    assert_eq!(visibility_structure_simplified(&hexagon), "aaaa");
    assert!(!has_unexpected_visibility_string(&hexagon));
    assert!(!is_interesting(&hexagon));
}

#[test]
fn second_known_signature_is_not_interesting() {
    let chain = profile(&CHAIN, "110110", 4, true);
    assert_eq!(visibility_structure_simplified(&chain), "aabb");
    let other = profile(&CHAIN, "111100", 4, true);
    assert_eq!(visibility_structure_simplified(&other), "bbcc");
    let known = profile(&["1100", "1110", "0110", "0001"], "1111", 4, true);
    assert_eq!(visibility_structure_simplified(&known), "abbc");
    assert!(!has_unexpected_visibility_string(&known));
    assert!(!is_interesting(&known));
}

#[test]
fn small_witness_with_a_new_signature_is_interesting() {
    let chain = profile(&CHAIN, "111100", 4, true);
    assert_eq!(visibility_structure_simplified(&chain), "bbcc");
    assert!(has_unexpected_visibility_string(&chain));
    assert!(is_interesting(&chain));
}

#[test]
fn large_witness_is_not_interesting() {
    let chain = profile(&CHAIN, "111100", 4, false);
    assert!(!has_unexpected_visibility_string(&chain));
    assert!(!is_interesting(&chain));
}

#[test]
fn dimension_five_and_more_is_always_interesting() {
    for vc_dimension in [5, 6, 7, 100] {
        for small in [false, true] {
            assert!(is_interesting(&profile(&LONELY_HEXAGON, "111100", vc_dimension, small)));
            assert!(is_interesting(&profile(&CHAIN, "111100", vc_dimension, small)));
        }
    }
}

#[test]
fn dimension_three_and_less_is_never_interesting() {
    for vc_dimension in [0, 1, 2, 3] {
        for small in [false, true] {
            assert!(!is_interesting(&profile(&LONELY_HEXAGON, "111100", vc_dimension, small)));
            assert!(!is_interesting(&profile(&CHAIN, "111100", vc_dimension, small)));
        }
    }
}

#[test]
fn unexpected_string_needs_dimension_four() {
    for vc_dimension in [0, 3, 5, 6] {
        assert!(!has_unexpected_visibility_string(&profile(&CHAIN, "111100", vc_dimension, true)));
    }
    assert!(has_unexpected_visibility_string(&profile(&CHAIN, "111100", 4, true)));
}

#[test]
fn fully_visible_members_all_get_the_letter_for_their_number() {
    let rows = ["111111"; 6];
    assert_eq!(visibility_structure_simplified(&profile(&rows, "111100", 4, true)), "dddd");
    assert_eq!(visibility_structure_simplified(&profile(&rows, "101010", 3, true)), "ccc");
    assert_eq!(visibility_structure_simplified(&profile(&rows, "111111", 6, true)), "ffffff");
}

#[test]
fn letters_are_sorted() {
    let rows = ["1110", "0110", "0010", "1111"];
    let shown = profile(&rows, "1110", 3, true);
    assert_eq!(visibility_structure_simplified(&shown), "abc");
    let rows = ["0010", "0110", "1110", "1111"];
    let shown = profile(&rows, "1110", 3, true);
    assert_eq!(visibility_structure_simplified(&shown), "abc");
}

#[test]
fn vertex_counts_itself_only_where_it_sees_itself() {
    let blind = profile(&["011", "101", "110"], "111", 2, true);
    assert_eq!(visibility_structure_simplified(&blind), "bbb");
    let sighted = profile(&["111", "111", "111"], "111", 2, true);
    assert_eq!(visibility_structure_simplified(&sighted), "ccc");
}

#[test]
fn member_that_sees_no_member_gets_the_character_before_a() {
    let dark = profile(&["000", "010", "000"], "110", 1, true);
    assert_eq!(visibility_structure_simplified(&dark), "`a");
}

#[test]
fn vertices_outside_the_subset_do_not_count() {
    let with_crowd = profile(&["1011", "0111", "1111", "1111"], "1100", 2, true);
    assert_eq!(visibility_structure_simplified(&with_crowd), "aa");
    let rows_of_outsiders = profile(&["1000", "0100", "1111", "1111"], "1100", 2, true);
    assert_eq!(visibility_structure_simplified(&rows_of_outsiders), "aa");
}

#[test]
fn empty_subset_has_the_empty_signature() {
    assert_eq!(visibility_structure_simplified(&profile(&["11", "11"], "00", 0, true)), "");
    let nothing = VisibilityProfile::new(Vec::new(), Vec::new(), 0, false).unwrap();
    assert_eq!(visibility_structure_simplified(&nothing), "");
    assert!(!is_interesting(&nothing));
}

#[test]
fn one_sided_visibility_is_read_by_rows() {
    let skewed = profile(&["11", "01"], "11", 1, true);
    assert_eq!(visibility_structure_simplified(&skewed), "ab");
}

#[test]
fn signature_is_the_same_from_every_starting_vertex() {
    let expected = visibility_structure_simplified(&renumbered(&PATCHY, "11011", &[0, 1, 2, 3, 4]));
    assert_eq!(expected, "aabb");
    for shift in 0..5 {
        let perm: Vec<usize> = (0..5).map(|i| (i + shift) % 5).collect();
        let turned = renumbered(&PATCHY, "11011", &perm);
        assert_eq!(visibility_structure_simplified(&turned), expected);
        assert_eq!(is_interesting(&turned), true);
    }
}

#[test]
fn signature_is_the_same_the_other_way_round() {
    let expected = visibility_structure_simplified(&renumbered(&PATCHY, "11011", &[0, 1, 2, 3, 4]));
    let mirrored = renumbered(&PATCHY, "11011", &[4, 3, 2, 1, 0]);
    assert_eq!(visibility_structure_simplified(&mirrored), expected);
    for shift in 0..5 {
        let perm: Vec<usize> = (0..5).map(|i| 4 - (i + shift) % 5).collect();
        assert_eq!(visibility_structure_simplified(&renumbered(&PATCHY, "11011", &perm)), expected);
    }
}

#[test]
fn signature_is_the_same_under_any_renumbering() {
    let expected = visibility_structure_simplified(&renumbered(&CHAIN, "111100", &[0, 1, 2, 3, 4, 5]));
    for perm in [[3, 5, 0, 2, 4, 1], [1, 0, 3, 2, 5, 4], [5, 0, 1, 2, 3, 4], [2, 4, 1, 5, 3, 0]] {
        assert_eq!(visibility_structure_simplified(&renumbered(&CHAIN, "111100", &perm)), expected);
    }
}

#[test]
fn signature_depends_on_the_chosen_subset() {
    let first = profile(&CHAIN, "111100", 4, true);
    let second = profile(&CHAIN, "110011", 4, true);
    assert_eq!(visibility_structure_simplified(&first), "bbcc");
    assert_eq!(visibility_structure_simplified(&second), "aabb");
}

#[test]
fn profile_wants_a_square_matrix() {
    assert!(VisibilityProfile::new(vec![flags("11"), flags("1")], flags("10"), 1, true).is_none());
    assert!(VisibilityProfile::new(vec![flags("11"), flags("111")], flags("10"), 1, true).is_none());
    assert!(VisibilityProfile::new(vec![flags("11")], flags("10"), 1, true).is_none());
    assert!(VisibilityProfile::new(vec![flags("11"), flags("11")], flags("101"), 1, true).is_none());
    assert!(VisibilityProfile::new(vec![flags("11"), flags("11")], flags("1"), 1, true).is_none());
    assert!(VisibilityProfile::new(Vec::new(), flags("1"), 1, true).is_none());
    assert!(VisibilityProfile::new(vec![flags("11"), flags("11")], flags("10"), 1, true).is_some());
}

#[test]
fn profile_holds_no_more_members_than_letters_can_count() {
    let size = MAX_SUBSET + 1;
    let visible = vec![vec![true; size]; size];
    assert!(VisibilityProfile::new(visible.clone(), vec![true; size], 4, true).is_none());
    let mut members = vec![true; size];
    members[17] = false;
    let full = VisibilityProfile::new(visible, members, 4, true).unwrap();
    let text = visibility_structure_simplified(&full);
    assert_eq!(text.chars().count(), MAX_SUBSET);
    assert!(text.chars().all(|c| c as u32 == 96 + 159));
}

#[test]
fn profile_gives_back_what_it_was_made_of() {
    let shown = profile(&["10", "11"], "01", 4, true);
    assert_eq!(shown.size(), 2);
    assert_eq!(shown.vc_dimension(), 4);
    assert!(shown.is_small());
    assert!(!shown.is_member(0));
    assert!(shown.is_member(1));
    assert!(shown.sees(0, 0));
    assert!(!shown.sees(0, 1));
    assert!(shown.sees(1, 0));
    assert!(shown.sees(1, 1));
    assert!(!profile(&["10", "11"], "01", 4, false).is_small());
}
