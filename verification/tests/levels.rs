use kfc_tools::levels::{
    failure_message, level_size, levels_to_extract, plan_levels, short_data_warning, total_size,
    ImageFailure, Level,
};

#[test]
fn levels_halve_down_to_one() {
    assert_eq!(level_size(20, 3, 0), (20, 3));
    assert_eq!(level_size(20, 3, 1), (10, 1));
    assert_eq!(level_size(20, 3, 2), (5, 1));
    assert_eq!(level_size(20, 3, 4), (1, 1));
    assert_eq!(level_size(20, 3, 63), (1, 1));
    assert_eq!(level_size(u32::MAX, 1, 31), (1, 1));
    assert_eq!(level_size(u32::MAX, 1, 1), (0x7fff_ffff, 1));
}

#[test]
fn only_the_first_level_is_asked_for_without_mipmaps() {
    assert_eq!(levels_to_extract(5, true), 5);
    assert_eq!(levels_to_extract(5, false), 1);
    assert_eq!(levels_to_extract(0, false), 1);
    assert_eq!(levels_to_extract(0, true), 0);
}

#[test]
fn planned_levels_tile_the_data() {
    assert_eq!(
        plan_levels(4, 2, &vec![8, 2, 1], 11),
        Ok(vec![
            Level { level: 0, width: 4, height: 2, from: 0, to: 8 },
            Level { level: 1, width: 2, height: 1, from: 8, to: 10 },
            Level { level: 2, width: 1, height: 1, from: 10, to: 11 },
        ])
    );
}

#[test]
fn levels_that_do_not_fit_are_left_out() {
    for have in [8, 9, 10] {
        let plan = plan_levels(4, 2, &vec![8, 2, 1], have).unwrap();
        assert_eq!(plan, vec![Level { level: 0, width: 4, height: 2, from: 0, to: 8 }]);
        assert!(short_data_warning("h", 11, have).unwrap().ends_with("extracting single level"));
    }
    let plan = plan_levels(4, 2, &vec![8, 2, 1], 1000).unwrap();
    assert_eq!(plan.len(), 3);
}

#[test]
fn image_is_given_up_without_data() {
    assert_eq!(plan_levels(4, 2, &vec![8], 0), Err(ImageFailure::EmptyData));
    assert_eq!(plan_levels(4, 2, &vec![], 0), Err(ImageFailure::EmptyData));
}

#[test]
fn image_is_given_up_without_its_first_level() {
    assert_eq!(
        plan_levels(4, 2, &vec![8, 2], 7),
        Err(ImageFailure::ShortBase { need: 8, have: 7 })
    );
}

#[test]
fn image_without_levels_is_given_up() {
    assert_eq!(plan_levels(4, 2, &vec![], 7), Err(ImageFailure::NothingExtracted));
}

#[test]
fn sizes_are_added_up() {
    assert_eq!(total_size(&vec![]), Some(0));
    assert_eq!(total_size(&vec![8, 2, 1]), Some(11));
    assert_eq!(total_size(&vec![usize::MAX, 0]), Some(usize::MAX));
    assert_eq!(total_size(&vec![usize::MAX, 1]), None);
}

#[test]
fn messages_say_what_is_missing() {
    assert_eq!(
        failure_message("h", &ImageFailure::EmptyData),
        "Empty data for image h, saving to failed/"
    );
    assert_eq!(
        failure_message("h", &ImageFailure::ShortBase { need: 128, have: 7 }),
        "Insufficient data for base level h: need 128, have 7, saving to failed/"
    );
    assert_eq!(
        failure_message("h", &ImageFailure::Undecodable { level: 0, reason: "bad".to_string() }),
        "Failed to decode image h level 0: bad, saving to failed/"
    );
    assert_eq!(
        failure_message("h", &ImageFailure::Panicked { level: 0 }),
        "Panic during decode of image h level 0, saving to failed/"
    );
    assert_eq!(
        failure_message("h", &ImageFailure::NothingExtracted),
        "No mipmaps extracted for h, saving to failed/"
    );
}

#[test]
fn short_data_are_told_but_empty_ones_are_not() {
    assert_eq!(
        short_data_warning("h", 11, 10),
        Some("Insufficient data for mipmaps h: need 11, have 10, extracting single level".to_string())
    );
    assert_eq!(short_data_warning("h", 11, 11), None);
    assert_eq!(short_data_warning("h", 11, 0), None);
}
