use redumper_gui::sector_view::sector_layout;
use redumper_gui::progress::SectorStatus;
use redumper_gui::sector_view::{sector_counts, update_box_colors, BoxColor};

use SectorStatus::{Error as E, Good as G, Unread as U};

#[test]
fn boxes_take_the_worst_sector() {
    let s = [G, G, G, U, G, E, U, G, G];
    let (c, bad) = update_box_colors(&s, 3, 3, None);
    assert_eq!(c, vec![BoxColor::Good, BoxColor::Bad, BoxColor::Unread]);
    assert_eq!(bad, 1);
}

#[test]
fn last_box_is_cut_at_the_end() {
    let s = [G, G, G, G, E];
    let (c, bad) = update_box_colors(&s, 2, 3, None);
    assert_eq!(c, vec![BoxColor::Good, BoxColor::Good, BoxColor::Bad]);
    assert_eq!(bad, 1);
    let (c, _) = update_box_colors(&s, 2, 4, None);
    assert_eq!(c[3], BoxColor::Good);
}

#[test]
fn empty_map_and_no_boxes() {
    let (c, bad) = update_box_colors(&[], 5, 0, Some(50));
    assert!(c.is_empty());
    assert_eq!(bad, 0);
    let (c, _) = update_box_colors(&[], 0, 3, None);
    assert_eq!(c, vec![BoxColor::Good; 3]);
}

#[test]
fn hash_progress_marks_boxes() {
    let s = vec![G; 1000];
    let (c, _) = update_box_colors(&s, 1, 1000, Some(50));
    let marked: Vec<usize> = (0..1000).filter(|&i| c[i] == BoxColor::Hash).collect();
    assert_eq!(marked, (500..510).collect::<Vec<usize>>());
    let (c, _) = update_box_colors(&s, 10, 100, Some(100));
    assert!(c.iter().all(|&x| x == BoxColor::Good));
    let (c, _) = update_box_colors(&s, 10, 100, Some(0));
    assert_eq!(c[0], BoxColor::Hash);
    assert_eq!(c[1], BoxColor::Good);
}

#[test]
fn hash_marking_keeps_the_bad_count() {
    let s = [E, E, E, E];
    let (c, bad) = update_box_colors(&s, 1, 4, Some(25));
    assert_eq!(c, vec![BoxColor::Bad, BoxColor::Hash, BoxColor::Bad, BoxColor::Bad]);
    assert_eq!(bad, 4);
}

#[test]
fn counts_by_status() {
    assert_eq!(sector_counts(&[G, E, U, G, U, U]), (2, 1, 3));
    assert_eq!(sector_counts(&[]), (0, 0, 0));
}

#[test]
fn layout_fits_sectors_in_boxes() {
    assert_eq!(sector_layout(0, 10, 10), None);
    assert_eq!(sector_layout(50, 10, 10), Some((1, 50)));
    assert_eq!(sector_layout(100, 10, 10), Some((1, 100)));
    assert_eq!(sector_layout(101, 10, 10), Some((2, 51)));
    assert_eq!(sector_layout(400, 20, 5), Some((4, 100)));
    assert_eq!(sector_layout(401, 10, 10), Some((8, 51)));
    assert_eq!(sector_layout(333000, 40, 30), Some((512, 651)));
    assert_eq!(sector_layout(7, 0, 0), Some((8, 1)));
    assert_eq!(sector_layout(7, 0, 4), Some((2, 4)));
}

#[test]
fn hash_progress_past_the_last_box_marks_nothing() {
    let s = vec![G; 50];
    let (c, _) = update_box_colors(&s, 1, 50, Some(101));
    assert!(c.iter().all(|&x| x == BoxColor::Good));
}
