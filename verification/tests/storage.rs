use alacritty_core::index::Line;
use alacritty_core::row::Row;
use alacritty_core::storage::{Storage, MAX_CACHE_SIZE};

fn filled_row(c: char) -> Row<char> {
    Row::from_vec(vec![c, c])
}

/// A storage whose rows, from line 0 down, hold the characters of `marks`.
fn marked_storage(marks: &str) -> Storage<char> {
    let lines = marks.chars().count();
    let mut storage: Storage<char> = Storage::with_capacity(lines, 2);
    for (i, c) in marks.chars().enumerate() {
        *storage.index_mut(Line(i as i32)) = filled_row(c);
    }
    storage
}

fn mark(storage: &Storage<char>, line: i32) -> char {
    *storage.index(Line(line)).get(0)
}

#[test]
fn with_capacity_holds_blank_rows() {
    let storage: Storage<char> = Storage::with_capacity(3, 4);
    assert_eq!(storage.len(), 3);
    assert_eq!(storage.visible_lines(), 3);
    assert_eq!(storage.capacity(), 3);
    for line in 0..3 {
        let row = storage.index(Line(line));
        assert_eq!(row.len(), 4);
        for column in 0..4 {
            assert_eq!(*row.get(column), '\0');
        }
    }
}

#[test]
fn indexing_is_anchored_at_the_bottom() {
    let storage = marked_storage("abc");
    assert_eq!(mark(&storage, 0), 'a');
    assert_eq!(mark(&storage, 1), 'b');
    assert_eq!(mark(&storage, 2), 'c');
}

#[test]
fn rotate_down_moves_every_line_down() {
    let mut storage = marked_storage("abcd");
    storage.rotate_down(1);
    // Every line holds the row that was one line above it; the bottommost
    // row has gone round to the top.
    assert_eq!(mark(&storage, 0), 'd');
    assert_eq!(mark(&storage, 1), 'a');
    assert_eq!(mark(&storage, 2), 'b');
    assert_eq!(mark(&storage, 3), 'c');
    assert_eq!(storage.len(), 4);
}

#[test]
fn rotate_down_by_the_capacity_changes_nothing() {
    let mut storage = marked_storage("abc");
    storage.rotate_down(3);
    assert_eq!(mark(&storage, 0), 'a');
    assert_eq!(mark(&storage, 1), 'b');
    assert_eq!(mark(&storage, 2), 'c');
    storage.rotate_down(0);
    assert_eq!(mark(&storage, 0), 'a');
}

#[test]
fn rotate_down_by_half_a_turn_brings_line_k_to_line_zero() {
    let mut storage = marked_storage("abcd");
    storage.rotate_down(2);
    assert_eq!(mark(&storage, 0), 'c');
    assert_eq!(mark(&storage, 2), 'a');
}

#[test]
fn rotate_takes_both_directions() {
    let mut storage = marked_storage("abcd");
    storage.rotate(-1);
    assert_eq!(mark(&storage, 0), 'b');
    assert_eq!(mark(&storage, 3), 'a');
    storage.rotate(1);
    assert_eq!(mark(&storage, 0), 'a');
    assert_eq!(mark(&storage, 3), 'd');
    storage.rotate(-4);
    assert_eq!(mark(&storage, 0), 'a');
}

#[test]
fn rotations_add_up() {
    let mut once = marked_storage("abcde");
    let mut twice = marked_storage("abcde");
    once.rotate_down(3);
    twice.rotate_down(1);
    twice.rotate_down(2);
    for line in 0..5 {
        assert_eq!(mark(&once, line), mark(&twice, line));
    }
}

#[test]
fn grow_visible_lines_keeps_the_rows() {
    let mut storage = marked_storage("abc");
    storage.grow_visible_lines(5);
    assert_eq!(storage.visible_lines(), 5);
    assert_eq!(storage.len(), 5);
    // The rows that were lines 0, 1, 2 are lines 2, 3, 4.
    assert_eq!(mark(&storage, 2), 'a');
    assert_eq!(mark(&storage, 3), 'b');
    assert_eq!(mark(&storage, 4), 'c');
    // The new rows are blank and as wide as the others.
    assert_eq!(storage.index(Line(0)).len(), 2);
    assert_eq!(mark(&storage, 0), '\0');
    assert_eq!(mark(&storage, 1), '\0');
}

#[test]
fn grow_after_rotation_keeps_the_rows() {
    let mut storage = marked_storage("abcd");
    storage.rotate_down(1);
    let before: Vec<char> = (0..4).map(|line| mark(&storage, line)).collect();
    storage.grow_visible_lines(6);
    for line in 0..4 {
        assert_eq!(mark(&storage, line + 2), before[line as usize]);
    }
}

#[test]
fn growth_allocates_in_batches() {
    let mut storage: Storage<char> = Storage::with_capacity(3, 1);
    storage.initialize(1, 1);
    assert_eq!(storage.len(), 4);
    assert_eq!(storage.capacity(), 3 + MAX_CACHE_SIZE);
    // The rows that are allocated serve the next growth.
    storage.initialize(10, 1);
    assert_eq!(storage.len(), 14);
    assert_eq!(storage.capacity(), 3 + MAX_CACHE_SIZE);
    // A request beyond the batch size is served whole.
    let mut large: Storage<char> = Storage::with_capacity(1, 1);
    large.initialize(MAX_CACHE_SIZE + 7, 1);
    assert_eq!(large.capacity(), 1 + MAX_CACHE_SIZE + 7);
}

#[test]
fn shrink_visible_lines_drops_the_oldest_rows() {
    let mut storage = marked_storage("abcd");
    storage.shrink_visible_lines(2);
    assert_eq!(storage.visible_lines(), 2);
    assert_eq!(storage.len(), 2);
    assert_eq!(mark(&storage, 0), 'c');
    assert_eq!(mark(&storage, 1), 'd');
    // Few rows are unused: they stay allocated.
    assert_eq!(storage.capacity(), 4);
}

#[test]
fn shrink_lines_gives_back_a_large_slack() {
    let mut storage: Storage<char> = Storage::with_capacity(2, 1);
    storage.initialize(MAX_CACHE_SIZE + 5, 1);
    assert_eq!(storage.capacity(), MAX_CACHE_SIZE + 7);
    storage.shrink_lines(4);
    // The slack is 4: nothing is given back.
    assert_eq!(storage.capacity(), MAX_CACHE_SIZE + 7);
    storage.shrink_lines(MAX_CACHE_SIZE);
    assert_eq!(storage.len(), 3);
    assert_eq!(storage.capacity(), 3);
}

#[test]
fn truncate_drops_unused_rows() {
    let mut storage = marked_storage("abc");
    storage.rotate_down(2);
    storage.initialize(1, 2);
    assert!(storage.capacity() > storage.len());
    let before: Vec<char> = (0..3).map(|line| mark(&storage, line)).collect();
    storage.truncate();
    assert_eq!(storage.capacity(), storage.len());
    for line in 0..3 {
        assert_eq!(mark(&storage, line), before[line as usize]);
    }
}

#[test]
fn take_all_then_replace_inner_restores_the_storage() {
    let mut storage = marked_storage("abcd");
    storage.rotate_down(3);
    let before: Vec<char> = (0..4).map(|line| mark(&storage, line)).collect();
    let rows = storage.take_all();
    assert_eq!(rows.len(), 4);
    assert_eq!(storage.len(), 0);
    // The rows come bottommost first.
    assert_eq!(*rows[0].get(0), before[3]);
    assert_eq!(*rows[3].get(0), before[0]);
    storage.replace_inner(rows);
    assert_eq!(storage.len(), 4);
    assert_eq!(storage.visible_lines(), 4);
    for line in 0..4 {
        assert_eq!(mark(&storage, line), before[line as usize]);
    }
}

#[test]
fn swap_exchanges_two_rows() {
    let mut storage = marked_storage("abcd");
    storage.rotate_down(1);
    storage.swap(Line(0), Line(2));
    assert_eq!(mark(&storage, 0), 'b');
    assert_eq!(mark(&storage, 1), 'a');
    assert_eq!(mark(&storage, 2), 'd');
    assert_eq!(mark(&storage, 3), 'c');
    storage.swap(Line(1), Line(1));
    assert_eq!(mark(&storage, 1), 'a');
}

#[test]
fn negative_lines_name_the_history() {
    let mut storage = marked_storage("abcd");
    storage.shrink_visible_lines(4);
    storage.initialize(2, 2);
    // Two rows of history above the four visible ones.
    assert_eq!(storage.len(), 6);
    *storage.index_mut(Line(-1)) = filled_row('x');
    *storage.index_mut(Line(-2)) = filled_row('y');
    assert_eq!(mark(&storage, -1), 'x');
    assert_eq!(mark(&storage, -2), 'y');
    assert_eq!(mark(&storage, 0), 'a');
    storage.rotate_down(1);
    assert_eq!(mark(&storage, 0), 'x');
    assert_eq!(mark(&storage, -1), 'y');
}
