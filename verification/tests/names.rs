use kfc_tools::names::{generate_filename, get_output_path, FileNames};

#[test]
fn taken_names_get_a_number() {
    let mut names = FileNames::new();
    assert_eq!(names.claim("a"), "a.json");
    assert_eq!(names.claim("b"), "b.json");
    assert_eq!(names.claim("a"), "a.1.json");
    assert_eq!(names.claim("a"), "a.2.json");
    for _ in 0..10 {
        names.claim("a");
    }
    assert_eq!(names.claim("a"), "a.13.json");
}

#[test]
fn numbered_names_can_be_taken_by_others() {
    let mut names = FileNames::new();
    assert_eq!(names.claim("a.1"), "a.1.json");
    assert_eq!(names.claim("a"), "a.json");
    assert_eq!(names.claim("a"), "a.2.json");
    assert_eq!(names.claim("a.1"), "a.1.1.json");
}

#[test]
fn content_file_is_named_by_its_hash() {
    assert_eq!(generate_filename("h", "bin", None, false), "h.bin");
    assert_eq!(generate_filename("h", "bin", None, true), "h.bin");
    assert_eq!(generate_filename("h", "bin", Some("axe"), false), "h.bin");
    assert_eq!(generate_filename("h", "bin", Some("axe"), true), "axe_h.bin");
    assert_eq!(generate_filename("h", "bin", Some(""), true), "_h.bin");
}

#[test]
fn dot_in_front_of_the_extension_is_optional() {
    assert_eq!(generate_filename("h", ".png", None, false), "h.png");
    assert_eq!(generate_filename("h", "png", None, false), "h.png");
    assert_eq!(generate_filename("h", "..png", None, false), "h..png");
    assert_eq!(generate_filename("h", "_mip3.png", None, false), "h._mip3.png");
    assert_eq!(generate_filename("h", "", None, false), "h.");
}

#[test]
fn refused_characters_are_replaced() {
    assert_eq!(
        generate_filename("h", "bin", Some("a/b\\c:d*e?f\"g<h>i|j\nk\u{7f}l\u{85}m"), true),
        "a_b_c_d_e_f_g_h_i_j_k_l_m_h.bin"
    );
    assert_eq!(generate_filename("h", "bin", Some("\u{e4} b.c"), true), "\u{e4} b.c_h.bin");
}

#[test]
fn different_hashes_go_to_different_files() {
    let a = generate_filename("11", "bin", Some("x"), true);
    let b = generate_filename("12", "bin", Some("x"), true);
    let c = generate_filename("12", "bin", None, true);
    assert_ne!(a, b);
    assert_ne!(a, c);
}

#[test]
fn organised_output_goes_into_folders() {
    assert_eq!(get_output_path(true, "icons", "h.png"), vec!["icons", "h.png"]);
    assert_eq!(get_output_path(true, "", "h.png"), vec!["h.png"]);
    assert_eq!(get_output_path(false, "icons", "h.png"), vec!["h.png"]);
}
