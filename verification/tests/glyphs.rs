use snake_game::bitmap::State::{E, N};
use snake_game::bitmap::{Bitmap, State, BITMAP_SIZE};

fn every_pattern() -> Vec<[State; 5]> {
    let mut patterns = Vec::new();
    for code in 0..32u8 {
        let mut bits = [E; 5];
        for i in 0..5 {
            if code & (1 << i) != 0 {
                bits[i] = N;
            }
        }
        patterns.push(bits);
    }
    patterns
}

#[test]
fn a_bitmap_has_five_flags() {
    assert_eq!(BITMAP_SIZE, 5);
}

#[test]
fn the_blank_pattern_renders_as_two_blanks() {
    assert_eq!(Bitmap::new().render(), "  ");
    assert_eq!(Bitmap::from([E, E, E, E, E]).render(), "  ");
}

#[test]
fn lines_render() {
    assert_eq!(Bitmap::from([E, N, N, N, E]).render(), "──");
    assert_eq!(Bitmap::from([N, E, N, E, N]).render(), "│ ");
}

#[test]
fn corners_render() {
    assert_eq!(Bitmap::from([N, E, N, N, E]).render(), "└─");
    assert_eq!(Bitmap::from([E, E, N, N, N]).render(), "┌─");
    assert_eq!(Bitmap::from([E, N, N, E, N]).render(), "┐ ");
    assert_eq!(Bitmap::from([N, N, N, E, E]).render(), "┘ ");
}

#[test]
fn junctions_render() {
    assert_eq!(Bitmap::from([N, N, N, N, E]).render(), "┴─");
    assert_eq!(Bitmap::from([N, E, N, N, N]).render(), "├─");
    assert_eq!(Bitmap::from([E, N, N, N, N]).render(), "┬─");
    assert_eq!(Bitmap::from([N, N, N, E, N]).render(), "┤ ");
    assert_eq!(Bitmap::from([N, N, N, N, N]).render(), "┼─");
}

#[test]
fn twelve_patterns_are_drawable() {
    let drawable: Vec<[State; 5]> = every_pattern()
        .into_iter()
        .filter(|bits| Bitmap::from(*bits).is_drawable())
        .collect();
    assert_eq!(drawable.len(), 12);
    let mut glyphs: Vec<String> = drawable.iter().map(|bits| Bitmap::from(*bits).render()).collect();
    glyphs.sort();
    glyphs.dedup();
    assert_eq!(glyphs.len(), 12);
}

#[test]
fn a_pattern_with_one_arm_or_without_its_centre_is_not_drawable() {
    assert!(!Bitmap::from([N, E, N, E, E]).is_drawable());
    assert!(!Bitmap::from([E, E, N, E, E]).is_drawable());
    assert!(!Bitmap::from([E, N, E, N, E]).is_drawable());
    assert!(!Bitmap::from([N, N, E, N, N]).is_drawable());
    assert!(!Bitmap::from([E, E, E, E, N]).is_drawable());
    assert!(Bitmap::from([E, N, N, N, E]).is_drawable());
    assert!(Bitmap::new().is_drawable());
}

#[test]
fn the_second_character_follows_the_right_arm() {
    for bits in every_pattern() {
        let bitmap = Bitmap::from(bits);
        if bitmap.is_drawable() {
            let text = bitmap.render();
            let chars: Vec<char> = text.chars().collect();
            assert_eq!(chars.len(), 2);
            assert_eq!(chars[1], if bits[3] == N { '─' } else { ' ' });
        }
    }
}

#[test]
fn combine_sets_what_either_has_set() {
    for a in every_pattern() {
        for b in every_pattern() {
            let mut bitmap = Bitmap::from(a);
            bitmap.combine(Bitmap::from(b));
            for i in 0..5 {
                let expected = if a[i] == N || b[i] == N { N } else { E };
                assert_eq!(bitmap[i], expected);
            }
        }
    }
}

#[test]
fn combine_does_not_depend_on_the_order() {
    for a in every_pattern() {
        for b in every_pattern() {
            let mut ab = Bitmap::from(a);
            ab.combine(Bitmap::from(b));
            let mut ba = Bitmap::from(b);
            ba.combine(Bitmap::from(a));
            for i in 0..5 {
                assert_eq!(ab[i], ba[i]);
            }
        }
    }
}

#[test]
fn combine_with_itself_or_with_blank_changes_nothing() {
    for a in every_pattern() {
        let mut twice = Bitmap::from(a);
        twice.combine(Bitmap::from(a));
        let mut with_blank = Bitmap::from(a);
        with_blank.combine(Bitmap::new());
        for i in 0..5 {
            assert_eq!(twice[i], a[i]);
            assert_eq!(with_blank[i], a[i]);
        }
    }
}

#[test]
fn combining_two_corners_gives_a_junction() {
    let mut bitmap = Bitmap::from([E, E, N, N, N]);
    bitmap.combine(Bitmap::from([E, N, N, E, N]));
    assert_eq!(bitmap.render(), "┬─");
    bitmap.combine(Bitmap::from([N, N, N, E, E]));
    assert_eq!(bitmap.render(), "┼─");
}
