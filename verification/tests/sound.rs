use yubikey_notifier::sound::{
    completion_sound, resolve_sound, sound_file_name, sound_file_names, ERROR_SOUND, SOUNDS,
    SUCCESS_SOUND,
};

#[test]
fn resolve_sound_by_name() {
    assert_eq!(resolve_sound("Funk"), "/System/Library/Sounds/Funk.aiff");
}

#[test]
fn resolve_sound_with_extension() {
    assert_eq!(
        resolve_sound("Funk.aiff"),
        "/System/Library/Sounds/Funk.aiff"
    );
}

#[test]
fn resolve_sound_absolute_path() {
    assert_eq!(resolve_sound("/custom/path.aiff"), "/custom/path.aiff");
}

#[test]
fn resolve_sound_strips_repeated_extension() {
    assert_eq!(resolve_sound("Hero.aiff.aiff"), "/System/Library/Sounds/Hero.aiff");
    assert_eq!(resolve_sound(""), "/System/Library/Sounds/.aiff");
    assert_eq!(resolve_sound("a/b"), "/System/Library/Sounds/a/b.aiff");
}

#[test]
fn completion_sounds() {
    assert_eq!(completion_sound(true), SUCCESS_SOUND);
    assert_eq!(completion_sound(false), ERROR_SOUND);
    assert_eq!(completion_sound(true), "/System/Library/Sounds/Glass.aiff");
}

#[test]
fn sound_file_name_is_last_component() {
    assert_eq!(sound_file_name("/System/Library/Sounds/Tink.aiff"), "Tink.aiff");
    assert_eq!(sound_file_name("plain"), "plain");
    assert_eq!(sound_file_name("dir/"), "");
}

#[test]
fn sound_list_names() {
    let names = sound_file_names();
    assert_eq!(names.len(), SOUNDS.len());
    assert_eq!(names[0], "Funk.aiff");
    assert_eq!(names[13], "Tink.aiff");
}
