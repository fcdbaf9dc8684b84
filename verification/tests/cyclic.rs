use bochumoxide::error::ErrorKind;
use bochumoxide::misc::cyclic::{
    _db, _gen_find, cyclic, cyclic_find, de_bruijn_int, de_bruijn_string, CyclicGen,
};

#[test]
fn test_de_bruijn_string() {
    let alphabet = b"ab";
    assert_eq!(de_bruijn_string(alphabet, 3), "aaababbb");
}

#[test]
fn test_de_bruijn_int() {
    assert_eq!(de_bruijn_int(2, 3), vec![0, 0, 0, 1, 0, 1, 1, 1]);
}

#[test]
fn test_cyclic() {
    assert_eq!(
        cyclic(10, 3).unwrap(),
        vec![97, 97, 97, 98, 97, 97, 99, 97, 97, 100]
    );
}

#[test]
fn test_cyclic_find() {
    assert_eq!(cyclic_find(&[97, 97, 97, 98], 4).unwrap(), 1);
}

#[test]
fn test_generator_get() {
    let mut gen = CyclicGen::new(&[0, 1, 2], 3);
    assert_eq!(gen.get(2).unwrap(), vec![0, 0]);
    assert_eq!(gen.get(6).unwrap(), vec![0, 1, 0, 0, 2, 0]);
}

#[test]
fn de_bruijn_sequence_has_every_window_once() {
    for (k, n) in [(2usize, 1usize), (2, 4), (3, 3), (4, 3), (5, 2)] {
        let sequence = de_bruijn_int(k, n);
        let total = k.pow(n as u32);
        assert_eq!(sequence.len(), total);
        let mut seen = std::collections::HashSet::new();
        for start in 0..total {
            let window: Vec<u8> = (0..n).map(|i| sequence[(start + i) % total]).collect();
            assert!(window.iter().all(|&letter| (letter as usize) < k));
            assert!(seen.insert(window));
        }
    }
}

#[test]
fn generation_can_start_from_a_word() {
    // the extensions of the word 0 1 of period 2 to length 3 over two letters
    let mut sequence = Vec::new();
    let mut a = vec![0u8, 0, 1, 0, 0, 0];
    _db(3, 2, 3, 2, &mut sequence, &mut a);
    assert_eq!(sequence, vec![0, 1, 1]);
}

#[test]
fn pattern_letters_are_abcd() {
    assert_eq!(cyclic(4, 1).unwrap(), b"abcd");
    assert_eq!(cyclic(0, 2).unwrap(), b"");
    assert_eq!(cyclic(16, 2).unwrap(), b"aabacadbbcbdccdd");
}

#[test]
fn first_window_is_found() {
    assert_eq!(_gen_find(b"ab", b"aabab"), Some(1));
    assert_eq!(_gen_find(b"ba", b"aabab"), Some(2));
    assert_eq!(_gen_find(b"aabab", b"aabab"), Some(0));
    assert_eq!(_gen_find(b"bb", b"aabab"), None);
    assert_eq!(_gen_find(b"aababa", b"aabab"), None);
    assert_eq!(_gen_find(b"", b"aabab"), Some(1));
    assert_eq!(_gen_find(b"", b""), None);
    assert_eq!(_gen_find(b"a", b""), None);
}

#[test]
fn windows_are_found_where_the_pattern_has_them() {
    let pattern = cyclic(64, 3).unwrap();
    for start in 0..=61 {
        assert_eq!(cyclic_find(&pattern[start..start + 3], 3), Some(start));
    }
    // the window that wraps around the end is not in the linear pattern
    assert_eq!(cyclic_find(b"daa", 3), None);
}

#[test]
fn generator_runs_dry() {
    let mut gen = CyclicGen::new(&[0, 1], 2);
    assert_eq!(gen.get(3).unwrap(), vec![0, 0, 1]);
    assert_eq!(gen.get(2), Err(ErrorKind::SequenceExhausted));
    assert_eq!(gen.get(1).unwrap(), vec![1]);
    assert_eq!(gen.get(0).unwrap(), Vec::<u8>::new());
}

#[test]
fn generator_locates_windows_in_chunks() {
    let alphabet = b"abcd";
    let mut gen = CyclicGen::new(alphabet, 3);
    let first = gen.get(10).unwrap();
    let second = gen.get(0).unwrap();
    let third = gen.get(20).unwrap();
    assert_eq!(first, vec![0, 0, 0, 1, 0, 0, 2, 0, 0, 3]);
    assert!(second.is_empty());
    let spelled: Vec<u8> = third.iter().map(|&i| alphabet[i as usize]).collect();
    let pattern = cyclic(30, 3).unwrap();
    assert_eq!(&pattern[10..], &spelled[..]);
    // the window at position 12 of the pattern starts at position 2 of the third chunk
    let gen2 = {
        let mut g = CyclicGen::new(alphabet, 3);
        g.get(10).unwrap();
        g.get(0).unwrap();
        g.get(20).unwrap();
        g
    };
    assert_eq!(gen.find(&pattern[12..15]), Some((12, 2, 2)));
    assert_eq!(gen2.find(&pattern[3..6]), Some((3, 0, 3)));
}

#[test]
fn words_of_one_letter_are_the_letters_in_order() {
    assert_eq!(de_bruijn_int(2, 1), vec![0, 1]);
    assert_eq!(de_bruijn_int(5, 1), vec![0, 1, 2, 3, 4]);
    let all: Vec<u8> = (0..=254).collect();
    assert_eq!(de_bruijn_int(255, 1), all);
}

#[test]
fn every_window_of_the_pattern_is_found_where_it_was_cut() {
    for n in 1..=4usize {
        let total = 4usize.pow(n as u32);
        let pattern = cyclic(total, n).unwrap();
        assert_eq!(pattern.len(), total);
        for start in 0..=(total - n) {
            assert_eq!(cyclic_find(&pattern[start..start + n], n), Some(start));
        }
    }
}
