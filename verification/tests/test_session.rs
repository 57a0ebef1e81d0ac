use dimension_parser::session::{
    confirm_plan, get_dimensions, noop, parse_dpi, reenter_dimensions, select_image,
    trim_utterance, Handler, ImageProbe, SessionOutcome, SessionState,
};

fn probe_ok() -> ImageProbe {
    ImageProbe::Found {
        width: 4000,
        height: 4000,
    }
}

#[test]
fn test_end_to_end_pixel_resize() {
    let mut state = SessionState::new();

    let (prompt, handler) = state.handle();
    assert_eq!(prompt, "What image would you like to resize?");
    assert_eq!(handler, Handler::SelectImage);
    select_image(&mut state, "photo.png", &probe_ok()).unwrap();

    let (prompt, handler) = state.handle();
    assert_eq!(prompt, "What dimensions do you want for the resized image?");
    assert_eq!(handler, Handler::GetDimensions);
    get_dimensions(&mut state, "3000x3000").unwrap();

    let (prompt, handler) = state.handle();
    assert_eq!(
        prompt,
        "Ok. I can resize photo.png to 3000 x 3000 pixels for you. Do you want me to do this for you?"
    );
    assert_eq!(handler, Handler::ConfirmPlan);
    confirm_plan(&mut state, "yes").unwrap();

    assert_eq!(
        state.outcome,
        Some(SessionOutcome::Completed {
            width: 3000,
            height: 3000
        })
    );
}

#[test]
fn test_end_to_end_physical_resize() {
    let mut state = SessionState::new();

    let (_, handler) = state.handle();
    assert_eq!(handler, Handler::SelectImage);
    select_image(&mut state, "photo.png", &probe_ok()).unwrap();

    let (_, handler) = state.handle();
    assert_eq!(handler, Handler::GetDimensions);
    get_dimensions(&mut state, "5x5 in").unwrap();

    let (prompt, handler) = state.handle();
    assert_eq!(prompt, "What dpi value do you want? (300 is ideal)");
    assert_eq!(handler, Handler::ParseDpi);
    parse_dpi(&mut state, "300").unwrap();

    let (prompt, handler) = state.handle();
    assert_eq!(
        prompt,
        "Ok. I can resize photo.png to 1500 x 1500 pixels. Do you want me to do this for you?"
    );
    assert_eq!(handler, Handler::ConfirmPlan);
    confirm_plan(&mut state, "yes").unwrap();

    assert_eq!(
        state.outcome,
        Some(SessionOutcome::Completed {
            width: 1500,
            height: 1500
        })
    );
}

#[test]
fn test_cancellation() {
    let mut state = SessionState::new();
    select_image(&mut state, "photo.png", &probe_ok()).unwrap();
    get_dimensions(&mut state, "100x100").unwrap();
    let (_, handler) = state.handle();
    assert_eq!(handler, Handler::ConfirmPlan);
    confirm_plan(&mut state, "no thanks").unwrap();
    assert_eq!(state.outcome, Some(SessionOutcome::Cancelled));
}

#[test]
fn test_confirmation_is_case_insensitive() {
    for utterance in ["yes", "YES", "Yes", "y", "Y", "yEs"] {
        let mut state = SessionState::new();
        select_image(&mut state, "photo.png", &probe_ok()).unwrap();
        get_dimensions(&mut state, "10x10").unwrap();
        state.handle();
        confirm_plan(&mut state, utterance).unwrap();
        assert_eq!(
            state.outcome,
            Some(SessionOutcome::Completed {
                width: 10,
                height: 10
            })
        );
    }
}

#[test]
fn test_image_not_found_keeps_prompting() {
    let mut state = SessionState::new();
    let err = select_image(&mut state, "nope.png", &ImageProbe::NotFound).unwrap_err();
    assert_eq!(err, "Could not open file as an image.");
    let (_, handler) = state.handle();
    assert_eq!(handler, Handler::SelectImage);
}

#[test]
fn test_image_undecodable_keeps_prompting() {
    let mut state = SessionState::new();
    let err = select_image(&mut state, "notes.txt", &ImageProbe::Undecodable).unwrap_err();
    assert_eq!(err, "Could not open file as an image.");
    let (_, handler) = state.handle();
    assert_eq!(handler, Handler::SelectImage);
}

#[test]
fn test_ambiguous_dimensions_leave_state_unchanged() {
    let mut state = SessionState::new();
    select_image(&mut state, "photo.png", &probe_ok()).unwrap();
    let msg = get_dimensions(&mut state, "either 1x2 or 3x4").unwrap();
    assert_eq!(msg, "Sorry, I'm confused what dimensions you want to use.");
    assert_eq!(state.scenario, None);
    let msg = get_dimensions(&mut state, "no dimensions at all").unwrap();
    assert_eq!(msg, "Sorry, I'm confused what dimensions you want to use.");
    assert_eq!(state.scenario, None);
}

#[test]
fn test_malformed_number_reported() {
    let mut state = SessionState::new();
    select_image(&mut state, "photo.png", &probe_ok()).unwrap();
    let err = get_dimensions(&mut state, "99999999999x10").unwrap_err();
    assert_eq!(err, "Could not read the dimensions from your input.");
    assert_eq!(state.scenario, None);
}

#[test]
fn test_invalid_dpi_reported() {
    let mut state = SessionState::new();
    let err = parse_dpi(&mut state, "three hundred").unwrap_err();
    assert_eq!(err, "Could not read DPI from your input.");
    assert_eq!(state.dpi, None);
    parse_dpi(&mut state, "300").unwrap();
    assert_eq!(state.dpi, Some(300));
    parse_dpi(&mut state, "-72").unwrap();
    assert_eq!(state.dpi, Some(-72));
}

#[test]
fn test_fractional_pixels_reenter_dimensions() {
    let mut state = SessionState::new();
    select_image(&mut state, "photo.png", &probe_ok()).unwrap();
    get_dimensions(&mut state, "10.5x10").unwrap();
    let (prompt, handler) = state.handle();
    assert_eq!(
        prompt,
        "You should use whole pixel values for your dimensions or specify a different unit."
    );
    assert_eq!(handler, Handler::ReenterDimensions);
    reenter_dimensions(&mut state, "").unwrap();
    assert_eq!(state.scenario, None);
    assert_eq!(state.dpi, None);
    let (_, handler) = state.handle();
    assert_eq!(handler, Handler::GetDimensions);
}

#[test]
fn test_clarify_unit_is_a_dead_end() {
    let mut state = SessionState::new();
    select_image(&mut state, "photo.png", &probe_ok()).unwrap();
    get_dimensions(&mut state, "10in x 10 cm").unwrap();
    let (prompt, handler) = state.handle();
    assert_eq!(prompt, "Sorry, I'm not exactly sure what unit you want to use.");
    assert_eq!(handler, Handler::Noop);
    let before = state.clone();
    noop(&mut state, "anything").unwrap();
    assert_eq!(state, before);
}

#[test]
fn test_select_image_stores_trimmed_path_and_native_size() {
    let mut state = SessionState::new();
    let msg = select_image(
        &mut state,
        "  photo.png \n",
        &ImageProbe::Found {
            width: 123,
            height: 456,
        },
    )
    .unwrap();
    assert_eq!(msg, "Ok, we can resize that image.");
    assert_eq!(state.image, Some("photo.png".to_string()));
    assert_eq!(state.native_image_width, Some(123));
    assert_eq!(state.native_image_height, Some(456));
}

#[test]
fn test_trim_utterance() {
    assert_eq!(trim_utterance("  photo.png \n"), "photo.png");
    assert_eq!(trim_utterance("photo.png"), "photo.png");
    assert_eq!(trim_utterance(" \t \r\n"), "");
    assert_eq!(trim_utterance(""), "");
}
