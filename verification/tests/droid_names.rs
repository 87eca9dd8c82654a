use droid_chatter::{generate_random_string, index_from_nanos, letters_from_indices, letter_file, rand_idx, to_ascii_lowercase, DroidType, Mood};

#[test]
fn lib_test_generate_random_string() {
    let result = generate_random_string(10);
    assert_eq!(result.len(), 10);
    assert!(result.chars().all(|c| c.is_alphabetic()));
}

#[test]
fn utils_test_generate_random_string() {
    let result = generate_random_string(10);
    assert_eq!(result.len(), 10);
    assert!(result.chars().all(|c| c.is_alphabetic()));
}

#[test]
fn test_mood_as_str() {
    assert_eq!(Mood::Happy.as_str(), "happy");
    assert_eq!(Mood::Sad.as_str(), "sad");
    assert_eq!(Mood::Angry.as_str(), "angry");
}

#[test]
fn test_droid_type_as_str() {
    assert_eq!(DroidType::Astro.as_str(), "astro");
    assert_eq!(DroidType::Bd1.as_str(), "bd1");
    assert_eq!(DroidType::Do.as_str(), "do");
    assert_eq!(DroidType::Bb8.as_str(), "bb8");
    assert_eq!(DroidType::Chopper.as_str(), "chopper");
    assert_eq!(DroidType::Mouse.as_str(), "mouse");
    assert_eq!(DroidType::Probe.as_str(), "probe");
    assert_eq!(DroidType::R2.as_str(), "r2");
}

#[test]
fn droid_and_mood_names_are_distinct() {
    let droids = [
        DroidType::Astro,
        DroidType::Bd1,
        DroidType::Do,
        DroidType::Bb8,
        DroidType::Chopper,
        DroidType::Mouse,
        DroidType::Probe,
        DroidType::R2,
    ];
    for (i, a) in droids.iter().enumerate() {
        for (j, b) in droids.iter().enumerate() {
            assert_eq!(i == j, a.as_str() == b.as_str());
        }
    }
    assert_ne!(Mood::Happy.as_str(), Mood::Sad.as_str());
    assert_ne!(Mood::Sad.as_str(), Mood::Angry.as_str());
    assert_ne!(Mood::Happy.as_str(), Mood::Angry.as_str());
}

#[test]
fn random_string_edge_lengths() {
    assert_eq!(generate_random_string(0), "");
    let long = generate_random_string(200);
    assert_eq!(long.chars().count(), 200);
    assert!(long.chars().all(|c| ('a'..='z').contains(&c)));
}

#[test]
fn rand_idx_stays_below_max() {
    for max in 1..50usize {
        assert!(rand_idx(max) < max);
    }
    assert_eq!(rand_idx(1), 0);
}

#[test]
fn letter_files_are_lower_case_wav() {
    assert_eq!(letter_file('A'), "a.wav");
    assert_eq!(letter_file('z'), "z.wav");
    assert_eq!(letter_file('Q'), letter_file('q'));
    assert_eq!(letter_file('é'), "é.wav");
    assert_eq!(to_ascii_lowercase('M'), 'm');
    assert_eq!(to_ascii_lowercase('m'), 'm');
    assert_eq!(to_ascii_lowercase('1'), '1');
    assert_eq!(to_ascii_lowercase('Ä'), 'Ä');
}

#[test]
fn index_from_nanos_is_the_reading_modulo_max() {
    assert_eq!(index_from_nanos(0, 26), 0);
    assert_eq!(index_from_nanos(27, 26), 1);
    assert_eq!(index_from_nanos(999_999_999, 10), 9);
    assert_eq!(index_from_nanos(5, 1_000_000_007), 5);
}

#[test]
fn letters_from_indices_spells_the_alphabet() {
    assert_eq!(letters_from_indices(&vec![0, 1, 25, 7]), "abzh");
    assert_eq!(letters_from_indices(&vec![]), "");
}
