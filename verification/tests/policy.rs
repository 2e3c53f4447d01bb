use webp_converter::path::FilePath;
use webp_converter::policy::{output_file_name, resolve, OverwriteMode};
use webp_converter::snapshot::Snapshot;

fn path(parts: &[&str]) -> FilePath {
    FilePath::from_parts(parts.iter().map(|s| s.to_string()).collect())
}

fn snapshot(paths: &[&[&str]]) -> Snapshot {
    Snapshot::from_paths(paths.iter().map(|p| path(p)).collect())
}

#[test]
fn output_names_are_numbered_from_the_second_attempt() {
    assert_eq!(output_file_name("photo", 0), "photo.webp");
    assert_eq!(output_file_name("photo", 1), "photo-1.webp");
    assert_eq!(output_file_name("photo", 12), "photo-12.webp");
    assert_eq!(output_file_name("a.b", 3), "a.b-3.webp");
}

#[test]
fn skip_passes_over_an_existing_output() {
    let out = path(&["out"]);
    let taken = snapshot(&[&["out", "photo.webp"]]);
    assert_eq!(resolve(&out, "photo", &OverwriteMode::Skip, &taken), None);
    assert_eq!(
        resolve(&out, "other", &OverwriteMode::Skip, &taken),
        Some(path(&["out", "other.webp"]))
    );
    assert_eq!(
        resolve(&out, "photo", &OverwriteMode::Skip, &Snapshot::new()),
        Some(path(&["out", "photo.webp"]))
    );
}

#[test]
fn overwrite_always_gives_the_plain_name() {
    let out = path(&["out"]);
    let taken = snapshot(&[&["out", "photo.webp"], &["out", "photo-1.webp"]]);
    assert_eq!(
        resolve(&out, "photo", &OverwriteMode::Overwrite, &taken),
        Some(path(&["out", "photo.webp"]))
    );
    assert_eq!(
        resolve(&out, "photo", &OverwriteMode::Overwrite, &Snapshot::new()),
        Some(path(&["out", "photo.webp"]))
    );
}

#[test]
fn rename_gives_photo_1_then_photo_2() {
    let out = path(&["out"]);
    let mut known = snapshot(&[&["out", "photo.webp"]]);
    let first = resolve(&out, "photo", &OverwriteMode::Rename, &known).unwrap();
    assert_eq!(first, path(&["out", "photo-1.webp"]));
    known.record(first);
    let second = resolve(&out, "photo", &OverwriteMode::Rename, &known).unwrap();
    assert_eq!(second, path(&["out", "photo-2.webp"]));
    assert!(!known.contains(&second));
}

#[test]
fn rename_keeps_the_plain_name_where_it_is_free() {
    let out = path(&["out"]);
    let known = snapshot(&[&["out", "photo-1.webp"], &["elsewhere", "photo.webp"]]);
    assert_eq!(
        resolve(&out, "photo", &OverwriteMode::Rename, &known),
        Some(path(&["out", "photo.webp"]))
    );
}

#[test]
fn rename_fills_the_first_gap() {
    let out = path(&["out"]);
    let known = snapshot(&[
        &["out", "photo.webp"],
        &["out", "photo-1.webp"],
        &["out", "photo-3.webp"],
    ]);
    assert_eq!(
        resolve(&out, "photo", &OverwriteMode::Rename, &known),
        Some(path(&["out", "photo-2.webp"]))
    );
}

#[test]
fn rename_goes_past_nine() {
    let out = path(&["out"]);
    let mut known = Snapshot::new();
    for attempt in 0..11u64 {
        known.record(out.child(&output_file_name("p", attempt)));
    }
    assert_eq!(
        resolve(&out, "p", &OverwriteMode::Rename, &known),
        Some(path(&["out", "p-11.webp"]))
    );
}

#[test]
fn a_directory_counts_as_existing() {
    let out = path(&["out"]);
    let mut known = Snapshot::new();
    known.record_dir(&path(&["out", "photo.webp", "inner"]));
    assert!(known.contains(&path(&["out"])));
    assert!(known.contains(&path(&["out", "photo.webp"])));
    assert!(known.contains(&path(&["out", "photo.webp", "inner"])));
    assert!(!known.contains(&path(&[])));
    assert!(!known.contains(&path(&["out", "photo.webp", "inner", "x"])));
    assert_eq!(resolve(&out, "photo", &OverwriteMode::Skip, &known), None);
    assert_eq!(
        resolve(&out, "photo", &OverwriteMode::Rename, &known),
        Some(path(&["out", "photo-1.webp"]))
    );
}

#[test]
fn a_snapshot_clone_holds_the_same_paths() {
    let known = snapshot(&[&["a"], &["b", "c"]]);
    let copy = known.clone();
    assert!(copy.contains(&path(&["a"])));
    assert!(copy.contains(&path(&["b", "c"])));
    assert!(!copy.contains(&path(&["b"])));
}
