use rustography::caption::{accumulate_slices, caption_text, hashtags_by_film, CaptionArgs, FilmType};

#[test]
fn accumulate_slices_grows_prefixes() {
    assert_eq!(accumulate_slices("Kodak Portra 400", ' '), vec!["Kodak", "KodakPortra", "KodakPortra400"]);
}

#[test]
fn accumulate_slices_skips_asides_and_strips_at() {
    assert_eq!(accumulate_slices("@kodak (expired) Gold", ' '), vec!["kodak", "kodakGold"]);
    assert_eq!(accumulate_slices("", ' '), vec![""]);
    assert_eq!(accumulate_slices("a  b", ' '), vec!["a", "a", "ab"]);
    assert_eq!(accumulate_slices("x,y", ','), vec!["x", "xy"]);
}

#[test]
fn hashtags_for_colour_film() {
    let tags = hashtags_by_film("Portra 400", &FilmType::Color, "Nikon F3", "35mm");
    assert!(tags.starts_with("#colorFilm #filmPhotography"));
    assert!(tags.ends_with(" #analogLove #35mm #35mmfilm #Portra #Portra400 #Nikon #NikonF3"));
    assert!(!tags.contains("#HeyLomography"));
}

#[test]
fn hashtags_for_lomography_black_and_white() {
    let tags = hashtags_by_film("Lady Grey", &FilmType::LomographyBlackAndWhite, "Leica", "120");
    assert!(tags.starts_with("#blackAndWhitePhotography #BWPhotography"));
    assert!(tags.ends_with(" #filmLife #HeyLomography #120 #120film #Lady #LadyGrey #Leica"));
}

#[test]
fn caption_with_everything() {
    let args = CaptionArgs {
        camera: "Nikon F3".to_string(),
        title: Some("Dusk".to_string()),
        film: Some("HP5".to_string()),
        film_type: Some(FilmType::BlackAndWhite),
        lab: Some("Lab X".to_string()),
        format: Some("35mm".to_string()),
    };
    let text = caption_text(&args);
    let tags = hashtags_by_film("HP5", &FilmType::BlackAndWhite, "Nikon F3", "35mm");
    let expected = format!("Dusk\n\n\u{1F4F8} Nikon F3\n\u{1F39E}\u{FE0F} HP5\n\u{1F9EA} Lab X\n\n{}", tags);
    assert_eq!(text, expected);
}

#[test]
fn caption_with_camera_only() {
    let args = CaptionArgs {
        camera: "Pentax 67".to_string(),
        title: None,
        film: Some("Ektar".to_string()),
        film_type: None,
        lab: None,
        format: Some("120".to_string()),
    };
    assert_eq!(caption_text(&args), ".\n\n\u{1F4F8} Pentax 67\n\u{1F39E}\u{FE0F} Ektar\n");
}

#[test]
fn film_type_defaults_to_colour() {
    assert_eq!(FilmType::default(), FilmType::Color);
}
