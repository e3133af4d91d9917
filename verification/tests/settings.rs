use puzzle_coords::cube_3x3_2_color_ufb::search as ufb;
use puzzle_coords::cube_3x3_2_color_ufr::search as ufr;
use puzzle_coords::cube_3x3_u_f2_r::search as u_f2_r;
use puzzle_coords::kilominx::search as kilominx;
use puzzle_coords::megaminx_u_r::search as megaminx;
use puzzle_coords::settings::{
    chunk_root_seven_over_four, reports_above, reports_from, ChunkFilesBehavior,
    UpdateFilesBehavior,
};

#[test]
fn seven_chunks_over_four_drives() {
    let roots: Vec<usize> = (0..14).map(chunk_root_seven_over_four).collect();
    assert_eq!(roots, vec![0, 1, 2, 3, 1, 2, 3, 0, 1, 2, 3, 1, 2, 3]);
    assert_eq!(megaminx::chunk_root_idx(11), 1);
    assert_eq!(kilominx::chunk_root_idx(11), 2);
    assert_eq!(u_f2_r::chunk_root_idx(11), 3);
}

#[test]
fn reporting_bounds() {
    assert!(!reports_from(12, 13));
    assert!(reports_from(13, 13));
    assert!(!reports_above(13, 13));
    assert!(reports_above(14, 13));
    assert!(ufr::new_state_is_reported(13));
    assert!(!ufb::new_state_is_reported(12));
    assert!(ufb::new_state_is_reported(13));
    assert!(!u_f2_r::new_state_is_reported(20));
    assert!(u_f2_r::new_state_is_reported(21));
}

#[test]
fn file_behaviours() {
    assert_eq!(u_f2_r::update_files_behavior(11), UpdateFilesBehavior::DontMerge);
    assert_eq!(u_f2_r::update_files_behavior(12), UpdateFilesBehavior::MergeAndKeep);
    assert_eq!(u_f2_r::chunk_files_behavior(11), ChunkFilesBehavior::Delete);
    assert_eq!(u_f2_r::chunk_files_behavior(12), ChunkFilesBehavior::Keep);
    assert_eq!(ufr::update_files_behavior(6), UpdateFilesBehavior::DontMerge);
    assert_eq!(ufr::update_files_behavior(7), UpdateFilesBehavior::MergeAndKeep);
    assert_eq!(ufb::update_files_behavior(0), UpdateFilesBehavior::MergeAndKeep);
    assert_eq!(ufb::chunk_files_behavior(6), ChunkFilesBehavior::Delete);
    assert_eq!(ufb::chunk_files_behavior(7), ChunkFilesBehavior::Keep);
    assert_eq!(megaminx::update_files_behavior(15, 16), UpdateFilesBehavior::DontMerge);
    assert_eq!(megaminx::chunk_files_behavior(16, 16), ChunkFilesBehavior::Keep);
}
