use webp_converter::error::{ConversionError, ConversionErrorKind};
use webp_converter::format::SourceFormat;
use webp_converter::input::{EntryKind, InputType};
use webp_converter::path::FilePath;
use webp_converter::plan::{
    convert_images_in_directory, convert_multiple_files, convert_single_image, plan_file,
    FileVerdict, Plan, Step, WalkItem,
};
use webp_converter::policy::OverwriteMode;
use webp_converter::snapshot::Snapshot;

fn path(parts: &[&str]) -> FilePath {
    FilePath::from_parts(parts.iter().map(|s| s.to_string()).collect())
}

fn snapshot(paths: &[&[&str]]) -> Snapshot {
    Snapshot::from_paths(paths.iter().map(|p| path(p)).collect())
}

fn dir(parts: &[&str]) -> Step {
    Step::EnsureDir { dir: path(parts) }
}

fn convert(source: &[&str], format: SourceFormat, target: &[&str]) -> Step {
    Step::Convert { source: path(source), format, target: path(target) }
}

fn file(parts: &[&str]) -> WalkItem {
    WalkItem::Entry { path: path(parts), is_file: true }
}

fn folder(parts: &[&str]) -> WalkItem {
    WalkItem::Entry { path: path(parts), is_file: false }
}

fn after(known: &Snapshot, plan: &Plan) -> Snapshot {
    let mut later = known.clone();
    for step in &plan.steps {
        match step {
            Step::EnsureDir { dir } => later.record_dir(dir),
            Step::Convert { target, .. } => later.record(target.clone()),
        }
    }
    later
}

fn writes(plan: &Plan) -> usize {
    plan.steps.iter().filter(|s| matches!(s, Step::Convert { .. })).count()
}

#[test]
fn a_single_file_goes_to_stem_webp_in_the_output_directory() {
    for (name, format) in [
        ("cat.png", SourceFormat::Png),
        ("cat.PNG", SourceFormat::Png),
        ("cat.jpg", SourceFormat::Jpeg),
        ("cat.JPeG", SourceFormat::Jpeg),
        ("cat.bmp", SourceFormat::Bmp),
        ("cat.Bmp", SourceFormat::Bmp),
    ] {
        let plan = convert_single_image(
            &path(&["in", name]),
            &path(&["out"]),
            &OverwriteMode::Skip,
            &Snapshot::new(),
        );
        assert_eq!(plan.verdict, Ok(()));
        assert_eq!(
            plan.steps,
            vec![dir(&["out"]), convert(&["in", name], format, &["out", "cat.webp"])]
        );
    }
}

#[test]
fn a_single_file_without_a_supported_extension_is_refused() {
    for name in ["anim.gif", "notes.txt", "archive", "picture.webp", ".png"] {
        for mode in [OverwriteMode::Skip, OverwriteMode::Overwrite, OverwriteMode::Rename] {
            let known = snapshot(&[&["out", "anim.webp"], &["out", "notes.webp"]]);
            let plan = convert_single_image(&path(&["in", name]), &path(&["out"]), &mode, &known);
            assert!(plan.steps.is_empty());
            let error = plan.verdict.unwrap_err();
            assert_eq!(error.kind, ConversionErrorKind::UnsupportedExtension);
            assert_eq!(error.path, path(&["in", name]));
        }
    }
}

#[test]
fn a_path_without_a_file_name_is_refused() {
    for source in [path(&[]), path(&["in", ".."]), path(&[""])] {
        let plan = convert_single_image(&source, &path(&["out"]), &OverwriteMode::Skip, &Snapshot::new());
        assert!(plan.steps.is_empty());
        let error = plan.verdict.unwrap_err();
        assert_eq!(error.kind, ConversionErrorKind::InvalidFileName);
        assert_eq!(error.path, source);
        assert_eq!(error.detail, "le chemin ne se termine pas par un nom de fichier");
    }
}

#[test]
fn skip_makes_the_directory_and_writes_nothing_where_the_output_exists() {
    let known = snapshot(&[&["out", "cat.webp"]]);
    let plan = convert_single_image(&path(&["in", "cat.png"]), &path(&["out"]), &OverwriteMode::Skip, &known);
    assert_eq!(plan, Plan { steps: vec![dir(&["out"])], verdict: Ok(()) });
}

#[test]
fn overwrite_writes_the_plain_name_again() {
    let known = snapshot(&[&["out", "cat.webp"]]);
    let plan = convert_single_image(&path(&["in", "cat.png"]), &path(&["out"]), &OverwriteMode::Overwrite, &known);
    assert_eq!(
        plan.steps,
        vec![dir(&["out"]), convert(&["in", "cat.png"], SourceFormat::Png, &["out", "cat.webp"])]
    );
    let fresh = convert_single_image(&path(&["in", "cat.png"]), &path(&["out"]), &OverwriteMode::Overwrite, &Snapshot::new());
    assert_eq!(plan, fresh);
}

#[test]
fn rename_numbers_the_second_and_third_conversion() {
    let source = path(&["in", "photo.png"]);
    let out = path(&["out"]);
    let mut known = snapshot(&[&["out", "photo.webp"]]);
    let second = convert_single_image(&source, &out, &OverwriteMode::Rename, &known);
    assert_eq!(
        second.steps,
        vec![dir(&["out"]), convert(&["in", "photo.png"], SourceFormat::Png, &["out", "photo-1.webp"])]
    );
    known = after(&known, &second);
    let third = convert_single_image(&source, &out, &OverwriteMode::Rename, &known);
    assert_eq!(
        third.steps,
        vec![dir(&["out"]), convert(&["in", "photo.png"], SourceFormat::Png, &["out", "photo-2.webp"])]
    );
    assert!(known.contains(&path(&["out", "photo.webp"])));
}

#[test]
fn a_list_is_planned_in_order_into_one_directory() {
    let sources = vec![path(&["a", "one.png"]), path(&["b", "two.JPG"]), path(&["c", "three.bmp"])];
    let plan = convert_multiple_files(&sources, &path(&["out"]), &OverwriteMode::Skip, &Snapshot::new());
    assert_eq!(plan.verdict, Ok(()));
    assert_eq!(
        plan.steps,
        vec![
            dir(&["out"]),
            convert(&["a", "one.png"], SourceFormat::Png, &["out", "one.webp"]),
            convert(&["b", "two.JPG"], SourceFormat::Jpeg, &["out", "two.webp"]),
            convert(&["c", "three.bmp"], SourceFormat::Bmp, &["out", "three.webp"]),
        ]
    );
}

#[test]
fn an_empty_list_only_makes_the_directory() {
    let plan = convert_multiple_files(&[], &path(&["out"]), &OverwriteMode::Rename, &Snapshot::new());
    assert_eq!(plan, Plan { steps: vec![dir(&["out"])], verdict: Ok(()) });
}

#[test]
fn the_first_refused_file_of_a_list_ends_the_plan() {
    let sources = vec![
        path(&["a", "one.png"]),
        path(&["a", "bad.gif"]),
        path(&["a", "three.png"]),
        path(&["a", ".."]),
    ];
    let plan = convert_multiple_files(&sources, &path(&["out"]), &OverwriteMode::Overwrite, &Snapshot::new());
    assert_eq!(
        plan.steps,
        vec![dir(&["out"]), convert(&["a", "one.png"], SourceFormat::Png, &["out", "one.webp"])]
    );
    let error = plan.verdict.unwrap_err();
    assert_eq!(error.kind, ConversionErrorKind::UnsupportedExtension);
    assert_eq!(error.path, path(&["a", "bad.gif"]));
    assert_eq!(error.detail, "seuls les fichiers png, jpg, jpeg et bmp peuvent être convertis");
}

#[test]
fn two_sources_with_one_stem_meet_in_the_list() {
    let sources = vec![path(&["a", "img.png"]), path(&["b", "img.jpg"])];
    let out = path(&["out"]);
    let skip = convert_multiple_files(&sources, &out, &OverwriteMode::Skip, &Snapshot::new());
    assert_eq!(
        skip.steps,
        vec![dir(&["out"]), convert(&["a", "img.png"], SourceFormat::Png, &["out", "img.webp"])]
    );
    let rename = convert_multiple_files(&sources, &out, &OverwriteMode::Rename, &Snapshot::new());
    assert_eq!(
        rename.steps,
        vec![
            dir(&["out"]),
            convert(&["a", "img.png"], SourceFormat::Png, &["out", "img.webp"]),
            convert(&["b", "img.jpg"], SourceFormat::Jpeg, &["out", "img-1.webp"]),
        ]
    );
    let overwrite = convert_multiple_files(&sources, &out, &OverwriteMode::Overwrite, &Snapshot::new());
    assert_eq!(
        overwrite.steps,
        vec![
            dir(&["out"]),
            convert(&["a", "img.png"], SourceFormat::Png, &["out", "img.webp"]),
            convert(&["b", "img.jpg"], SourceFormat::Jpeg, &["out", "img.webp"]),
        ]
    );
}

#[test]
fn a_tree_is_mirrored_under_the_output_root() {
    let walk = vec![
        folder(&["in"]),
        folder(&["in", "a"]),
        folder(&["in", "a", "b"]),
        file(&["in", "a", "b", "img.png"]),
        file(&["in", "a", "b", "notes.txt"]),
        file(&["in", "top.bmp"]),
        file(&["in", "README"]),
    ];
    let plan = convert_images_in_directory(&path(&["in"]), &path(&["out"]), &walk, &OverwriteMode::Skip, &Snapshot::new());
    assert_eq!(plan.verdict, Ok(()));
    assert_eq!(
        plan.steps,
        vec![
            dir(&["out"]),
            dir(&["out", "a", "b"]),
            convert(&["in", "a", "b", "img.png"], SourceFormat::Png, &["out", "a", "b", "img.webp"]),
            dir(&["out"]),
            convert(&["in", "top.bmp"], SourceFormat::Bmp, &["out", "top.webp"]),
        ]
    );
}

#[test]
fn a_directory_with_an_image_name_is_not_converted() {
    let walk = vec![folder(&["in", "odd.png"]), file(&["in", "odd.png", "real.jpg"])];
    let plan = convert_images_in_directory(&path(&["in"]), &path(&["out"]), &walk, &OverwriteMode::Overwrite, &Snapshot::new());
    assert_eq!(
        plan.steps,
        vec![
            dir(&["out"]),
            dir(&["out", "odd.png"]),
            convert(&["in", "odd.png", "real.jpg"], SourceFormat::Jpeg, &["out", "odd.png", "real.webp"]),
        ]
    );
}

#[test]
fn an_empty_walk_only_makes_the_output_root() {
    let plan = convert_images_in_directory(&path(&["in"]), &path(&["out"]), &[], &OverwriteMode::Skip, &Snapshot::new());
    assert_eq!(plan, Plan { steps: vec![dir(&["out"])], verdict: Ok(()) });
}

#[test]
fn an_unreadable_entry_ends_the_walk() {
    let walk = vec![
        file(&["in", "a.png"]),
        WalkItem::Unreadable { path: path(&["in", "locked"]), detail: "permission denied".to_string() },
        file(&["in", "z.png"]),
    ];
    let plan = convert_images_in_directory(&path(&["in"]), &path(&["out"]), &walk, &OverwriteMode::Skip, &Snapshot::new());
    assert_eq!(
        plan.steps,
        vec![dir(&["out"]), dir(&["out"]), convert(&["in", "a.png"], SourceFormat::Png, &["out", "a.webp"])]
    );
    assert_eq!(
        plan.verdict,
        Err(ConversionError::new(ConversionErrorKind::DirectoryReadFailure, &path(&["in", "locked"]), "permission denied"))
    );
}

#[test]
fn a_file_outside_the_root_ends_the_walk() {
    let walk = vec![file(&["elsewhere", "a.png"]), file(&["in", "b.png"])];
    let plan = convert_images_in_directory(&path(&["in"]), &path(&["out"]), &walk, &OverwriteMode::Skip, &Snapshot::new());
    assert_eq!(plan.steps, vec![dir(&["out"])]);
    let error = plan.verdict.unwrap_err();
    assert_eq!(error.kind, ConversionErrorKind::RelativePathFailure);
    assert_eq!(error.path, path(&["elsewhere", "a.png"]));
    let stray = vec![file(&["elsewhere", "notes.txt"])];
    let passed = convert_images_in_directory(&path(&["in"]), &path(&["out"]), &stray, &OverwriteMode::Skip, &Snapshot::new());
    assert_eq!(passed, Plan { steps: vec![dir(&["out"])], verdict: Ok(()) });
}

#[test]
fn walking_a_single_file_puts_it_in_the_output_root() {
    let walk = vec![file(&["in", "solo.png"])];
    let plan = convert_images_in_directory(&path(&["in", "solo.png"]), &path(&["out"]), &walk, &OverwriteMode::Skip, &Snapshot::new());
    assert_eq!(
        plan.steps,
        vec![dir(&["out"]), dir(&["out"]), convert(&["in", "solo.png"], SourceFormat::Png, &["out", "solo.webp"])]
    );
}

#[test]
fn a_second_run_under_skip_writes_nothing() {
    let walk = vec![file(&["in", "a.png"]), file(&["in", "sub", "b.jpg"]), file(&["in", "sub", "b.bmp"])];
    let start = snapshot(&[&["out", "old.webp"]]);
    let first = convert_images_in_directory(&path(&["in"]), &path(&["out"]), &walk, &OverwriteMode::Skip, &start);
    assert_eq!(first.verdict, Ok(()));
    assert_eq!(writes(&first), 2);
    let later = after(&start, &first);
    let second = convert_images_in_directory(&path(&["in"]), &path(&["out"]), &walk, &OverwriteMode::Skip, &later);
    assert_eq!(second.verdict, Ok(()));
    assert_eq!(writes(&second), 0);
    let sources = vec![path(&["in", "a.png"]), path(&["in", "c.png"])];
    let first = convert_multiple_files(&sources, &path(&["out"]), &OverwriteMode::Skip, &start);
    let second = convert_multiple_files(&sources, &path(&["out"]), &OverwriteMode::Skip, &after(&start, &first));
    assert_eq!(second, Plan { steps: vec![dir(&["out"])], verdict: Ok(()) });
}

#[test]
fn rename_never_writes_where_something_exists() {
    let walk = vec![file(&["in", "a.png"]), file(&["in", "a.jpg"]), file(&["in", "sub", "a.bmp"])];
    let mut known = snapshot(&[&["out", "a.webp"], &["out", "a-1.webp"], &["out", "sub", "a.webp"]]);
    let plan = convert_images_in_directory(&path(&["in"]), &path(&["out"]), &walk, &OverwriteMode::Rename, &known);
    assert_eq!(writes(&plan), 3);
    for step in &plan.steps {
        match step {
            Step::EnsureDir { dir } => known.record_dir(dir),
            Step::Convert { target, .. } => {
                assert!(!known.contains(target));
                known.record(target.clone());
            }
        }
    }
    assert!(known.contains(&path(&["out", "a-2.webp"])));
    assert!(known.contains(&path(&["out", "a-3.webp"])));
    assert!(known.contains(&path(&["out", "sub", "a-1.webp"])));
}

#[test]
fn a_made_directory_takes_a_name_from_a_later_file() {
    let walk = vec![file(&["in", "x.webp", "deep.png"]), file(&["in", "x.png"])];
    let plan = convert_images_in_directory(&path(&["in"]), &path(&["out"]), &walk, &OverwriteMode::Rename, &Snapshot::new());
    assert_eq!(
        plan.steps,
        vec![
            dir(&["out"]),
            dir(&["out", "x.webp"]),
            convert(&["in", "x.webp", "deep.png"], SourceFormat::Png, &["out", "x.webp", "deep.webp"]),
            dir(&["out"]),
            convert(&["in", "x.png"], SourceFormat::Png, &["out", "x-1.webp"]),
        ]
    );
}

#[test]
fn no_plan_writes_to_a_file_it_reads() {
    let walk = vec![file(&["in", "a.png"]), file(&["in", "a.webp"]), file(&["in", "b.jpeg"])];
    let plan = convert_images_in_directory(&path(&["in"]), &path(&["in"]), &walk, &OverwriteMode::Overwrite, &Snapshot::new());
    for step in &plan.steps {
        if let Step::Convert { source, target, .. } = step {
            assert!(source.format().is_some());
            assert!(target.format().is_none());
            assert_eq!(target.extension(), Some("webp".to_string()));
        }
    }
    assert_eq!(writes(&plan), 2);
}

#[test]
fn plan_file_states_each_decision() {
    let out = path(&["out"]);
    let known = snapshot(&[&["out", "cat.webp"]]);
    assert_eq!(plan_file_kind(&path(&["cat.png"]), &out, &OverwriteMode::Skip, &known), "pass");
    assert_eq!(plan_file_kind(&path(&["dog.png"]), &out, &OverwriteMode::Skip, &known), "write");
    assert_eq!(plan_file_kind(&path(&["cat.gif"]), &out, &OverwriteMode::Skip, &known), "refuse");
}

fn plan_file_kind(source: &FilePath, out: &FilePath, mode: &OverwriteMode, known: &Snapshot) -> String {
    match plan_file(source, out, mode, known) {
        FileVerdict::Refuse { .. } => "refuse".to_string(),
        FileVerdict::PassOver => "pass".to_string(),
        FileVerdict::Write { .. } => "write".to_string(),
    }
}

#[test]
fn a_directory_input_keeps_its_name_under_the_output() {
    let input = InputType::Directory(path(&["logos"]));
    let walk = vec![
        folder(&["logos"]),
        file(&["logos", "a.png"]),
        file(&["logos", "notes.txt"]),
        folder(&["logos", "sub"]),
        file(&["logos", "sub", "b.jpg"]),
    ];
    let plan = input.plan(&path(&["out"]), &walk, &OverwriteMode::Skip, &Snapshot::new());
    assert_eq!(plan.verdict, Ok(()));
    assert_eq!(
        plan.steps,
        vec![
            dir(&["out", "logos"]),
            dir(&["out", "logos"]),
            convert(&["logos", "a.png"], SourceFormat::Png, &["out", "logos", "a.webp"]),
            dir(&["out", "logos", "sub"]),
            convert(&["logos", "sub", "b.jpg"], SourceFormat::Jpeg, &["out", "logos", "sub", "b.webp"]),
        ]
    );
    let written: Vec<FilePath> = plan
        .steps
        .iter()
        .filter_map(|s| match s {
            Step::Convert { target, .. } => Some(target.clone()),
            _ => None,
        })
        .collect();
    assert_eq!(written, vec![path(&["out", "logos", "a.webp"]), path(&["out", "logos", "sub", "b.webp"])]);
}

#[test]
fn inputs_dispatch_to_their_plans() {
    let out = path(&["out"]);
    let none = Snapshot::new();
    let single = InputType::SingleFile(path(&["in", "a.png"]));
    assert_eq!(
        single.plan(&out, &[], &OverwriteMode::Skip, &none),
        convert_single_image(&path(&["in", "a.png"]), &out, &OverwriteMode::Skip, &none)
    );
    let list = vec![path(&["in", "a.png"]), path(&["in", "b.bmp"])];
    let many = InputType::MultipleFiles(list.clone());
    assert_eq!(
        many.plan(&out, &[], &OverwriteMode::Rename, &none),
        convert_multiple_files(&list, &out, &OverwriteMode::Rename, &none)
    );
    let nameless = InputType::Directory(path(&["in", ".."]));
    let walk = vec![file(&["in", "..", "a.png"])];
    assert_eq!(
        nameless.plan(&out, &walk, &OverwriteMode::Skip, &none),
        convert_images_in_directory(&path(&["in", ".."]), &out, &walk, &OverwriteMode::Skip, &none)
    );
}

#[test]
fn inputs_describe_themselves() {
    let single = InputType::SingleFile(path(&["", "home", "u", "cat.png"]));
    assert_eq!(single.get_display_path(), "/home/u/cat.png");
    assert_eq!(single.summary(), "Fichier: cat.png");
    assert_eq!(single.get_path_for_validation(), Some(&path(&["", "home", "u", "cat.png"])));
    let tree = InputType::Directory(path(&["pics", "2024"]));
    assert_eq!(tree.get_display_path(), "pics/2024");
    assert_eq!(tree.summary(), "Répertoire: 2024");
    assert_eq!(tree.get_path_for_validation(), Some(&path(&["pics", "2024"])));
    let many = InputType::MultipleFiles(vec![path(&["a", "x.png"]), path(&["b", ".."]), path(&["c", "z.bmp"])]);
    assert_eq!(many.get_display_path(), "x.png, , z.bmp");
    assert_eq!(many.summary(), "3 fichiers");
    assert_eq!(many.get_path_for_validation(), None);
    assert_eq!(InputType::MultipleFiles(vec![]).get_display_path(), "");
    assert_eq!(InputType::Directory(path(&[])).summary(), "Répertoire: ");
}

#[test]
fn dropped_paths_select_an_input() {
    let one = || vec![path(&["in", "a.png"])];
    assert_eq!(InputType::from_dropped(one(), EntryKind::File), Some(InputType::SingleFile(path(&["in", "a.png"]))));
    assert_eq!(InputType::from_dropped(one(), EntryKind::Directory), Some(InputType::Directory(path(&["in", "a.png"]))));
    assert_eq!(InputType::from_dropped(one(), EntryKind::Other), None);
    assert_eq!(InputType::from_dropped(vec![], EntryKind::File), None);
    let two = vec![path(&["a"]), path(&["b"])];
    assert_eq!(InputType::from_dropped(two.clone(), EntryKind::Other), Some(InputType::MultipleFiles(two)));
}

#[test]
fn failures_read_as_sentences() {
    let error = ConversionError::new(ConversionErrorKind::DecodeFailure, &path(&["in", "a.png"]), "bad header");
    assert_eq!(error.message(), "Impossible de décoder l'image in/a.png: bad header");
    assert_eq!(error.clone(), error);
    for (kind, start) in [
        (ConversionErrorKind::UnsupportedExtension, "Extension non prise en charge pour x: d"),
        (ConversionErrorKind::InvalidFileName, "Nom de fichier invalide x: d"),
        (ConversionErrorKind::DirectoryCreationFailure, "Impossible de créer le répertoire de sortie x: d"),
        (ConversionErrorKind::DirectoryReadFailure, "Erreur lors de la lecture du répertoire x: d"),
        (ConversionErrorKind::RelativePathFailure, "Erreur de chemin relatif x: d"),
        (ConversionErrorKind::EncodeFailure, "Impossible d'écrire l'image WebP dans x: d"),
    ] {
        assert_eq!(ConversionError::new(kind, &path(&["x"]), "d").message(), start);
    }
}

#[test]
fn a_walk_from_above_the_root_converts_until_it_leaves_the_root() {
    let walk = vec![folder(&["in"]), file(&["in", "sub", "a.png"]), file(&["in", "b.png"]), file(&["in", "sub", "c.png"])];
    let plan = convert_images_in_directory(&path(&["in", "sub"]), &path(&["out"]), &walk, &OverwriteMode::Skip, &Snapshot::new());
    assert_eq!(
        plan.steps,
        vec![dir(&["out"]), dir(&["out"]), convert(&["in", "sub", "a.png"], SourceFormat::Png, &["out", "a.webp"])]
    );
    let error = plan.verdict.unwrap_err();
    assert_eq!(error.kind, ConversionErrorKind::RelativePathFailure);
    assert_eq!(error.path, path(&["in", "b.png"]));
    assert_eq!(error.detail, "le fichier n'est pas sous le répertoire à convertir");
}

#[test]
fn under_skip_a_made_directory_stands_in_for_an_output() {
    let walk = vec![file(&["in", "x.webp", "deep.png"]), file(&["in", "x.png"])];
    let plan = convert_images_in_directory(&path(&["in"]), &path(&["out"]), &walk, &OverwriteMode::Skip, &Snapshot::new());
    assert_eq!(plan.verdict, Ok(()));
    assert_eq!(
        plan.steps,
        vec![
            dir(&["out"]),
            dir(&["out", "x.webp"]),
            convert(&["in", "x.webp", "deep.png"], SourceFormat::Png, &["out", "x.webp", "deep.webp"]),
            dir(&["out"]),
        ]
    );
}
