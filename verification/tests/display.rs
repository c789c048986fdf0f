use xqa_terminal::display::{start, Display, DisplayAdapter, WindowSettings};

struct Accepting;

impl DisplayAdapter for Accepting {
    type Error = String;

    fn run(settings: WindowSettings) -> Result<(), String> {
        if settings.width == 1280 && settings.title == "XqA terminal" {
            Ok(())
        } else {
            Err(format!("unexpected settings: {:?}", settings))
        }
    }
}

struct Refusing;

impl DisplayAdapter for Refusing {
    type Error = usize;

    fn run(settings: WindowSettings) -> Result<(), usize> {
        Err(settings.height)
    }
}

#[test]
fn default_window_is_that_of_the_terminal() {
    let settings = WindowSettings::default();
    assert_eq!(settings.title, "XqA terminal");
    assert_eq!(settings.width, 1280);
    assert_eq!(settings.height, 720);
    assert!(!settings.fullscreen);
}

#[test]
fn start_hands_the_settings_to_the_host() {
    assert_eq!(start::<Accepting>(WindowSettings::default()), Ok(()));
    let other = WindowSettings { title: "other", width: 640, height: 480, fullscreen: true };
    assert!(start::<Accepting>(other).is_err());
}

#[test]
fn start_hands_back_what_the_host_reports() {
    assert_eq!(start::<Refusing>(WindowSettings::default()), Err(720));
    let other = WindowSettings { title: "other", width: 640, height: 480, fullscreen: true };
    assert_eq!(start::<Refusing>(other), Err(480));
}

#[test]
fn display_can_be_copied() {
    let mut display = Display::default();
    let copy = display;
    display.memory.clear();
    assert_eq!(copy.memory.0.to_vec(), display.memory.0.to_vec());
}
