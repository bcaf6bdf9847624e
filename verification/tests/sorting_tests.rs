use polyvc::sorting::sort_letters;

#[test]
fn letters_come_out_in_ascending_order() {
    assert_eq!(sort_letters(vec!['c', 'a', 'b']), vec!['a', 'b', 'c']);
}

#[test]
fn equal_letters_are_all_kept() {
    assert_eq!(sort_letters(vec!['b', 'a', 'b', 'a', 'b']), vec!['a', 'a', 'b', 'b', 'b']);
}

#[test]
fn no_letters_give_no_letters() {
    assert_eq!(sort_letters(Vec::new()), Vec::<char>::new());
}

#[test]
fn sorted_letters_stay_as_they_are() {
    assert_eq!(sort_letters(vec!['a', 'b', 'b', 'c']), vec!['a', 'b', 'b', 'c']);
}

#[test]
fn reversed_letters_are_turned_round() {
    assert_eq!(sort_letters(vec!['e', 'd', 'c', 'b', 'a']), vec!['a', 'b', 'c', 'd', 'e']);
}

#[test]
fn backtick_sorts_before_the_alphabet() {
    assert_eq!(sort_letters(vec!['a', '`', 'b', '`']), vec!['`', '`', 'a', 'b']);
}
