use taskpool::context::QueueFamiliesIndices;
use taskpool::material::MaterialError;
use taskpool::sim::Format;
use taskpool::AppSettings;

#[test]
fn queue_families_as_array_order() {
    let q = QueueFamiliesIndices { transfer: 1, compute: 2, graphics: 3, present: 4 };
    assert_eq!(q.as_array(), [1, 2, 3, 4]);
}

#[test]
fn material_error_messages() {
    assert_eq!(
        MaterialError::AlreadyRegistered("skin".to_string()).message(),
        "material already registered: skin"
    );
    assert_eq!(
        MaterialError::MissingTexture("d.png".to_string()).message(),
        "missing texture: d.png"
    );
    assert_eq!(
        MaterialError::InvalidTexture("n.png".to_string()).message(),
        "invalid texture: n.png"
    );
    assert_eq!(MaterialError::InvalidValue("sss".to_string()).message(), "invalid value: sss");
}

#[test]
fn format_names() {
    assert_eq!(Format::Image.name(), "Image");
    assert_eq!(Format::Geo.name(), "Geometry");
}

#[test]
fn app_settings_default() {
    let s = AppSettings::default();
    assert_eq!(s.name, "App");
    assert_eq!(s.resolution, [1280, 720]);
}
