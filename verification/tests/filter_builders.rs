use visusta::filters::{AsciiSpaceType, LuminanceAsciiFilter, LuminanceFilter, SobelAscii};
use visusta::gaussians::GaussianBuilder;

#[test]
fn luminance_filter_defaults_and_setters() {
    let filter = LuminanceFilter::create();
    assert_eq!(filter.multiplier, 1000);
    assert_eq!(filter.min, 0);

    let filter = filter.multiplier(700).min(12);
    assert_eq!(filter.multiplier, 700);
    assert_eq!(filter.min, 12);
}

#[test]
fn luminance_ascii_filter_defaults_and_setters() {
    let filter = LuminanceAsciiFilter::create();
    assert_eq!(filter.font_size, 10);
    assert_eq!(filter.chars, [' ', '.', ';', 'c', 'o', 'P', '0', '?', '@', '#']);
    assert!(matches!(filter.space_type, AsciiSpaceType::Space));

    let chars = ['0', '1', '2', '3', '4', '5', '6', '7', '8', '9'];
    let filter = filter.font_size(12).chars(chars).space_type(AsciiSpaceType::Raw('_'));
    assert_eq!(filter.font_size, 12);
    assert_eq!(filter.chars, chars);
    assert!(matches!(filter.space_type, AsciiSpaceType::Raw('_')));
}

#[test]
fn sobel_ascii_defaults_and_setters() {
    let filter = SobelAscii::create();
    assert_eq!(filter.font_size, 10);
    assert_eq!(filter.magnitude_min, 10);
    assert_eq!(filter.ascii_max, 650);
    assert_eq!(filter.chars, ['|', '/', '-', '\\']);
    assert!(matches!(filter.space_type, AsciiSpaceType::Space));

    let filter = filter.font_size(12).magnitude_min(20).ascii_max(650);
    assert_eq!(filter.font_size, 12);
    assert_eq!(filter.magnitude_min, 20);
    assert_eq!(filter.ascii_max, 650);
}

#[test]
fn gaussian_builder_records_its_settings() {
    let builder = GaussianBuilder::create(500, 2250);
    assert_eq!(builder.sigma_a, 500);
    assert_eq!(builder.sigma_b, 2250);
    assert_eq!(builder.scalar, None);
    assert_eq!(builder.cutoff, None);

    let builder = builder.scalar(500).cutoff(40000);
    assert_eq!(builder.scalar, Some(500));
    assert_eq!(builder.cutoff, Some(40000));
}
