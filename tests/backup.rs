use bert::backup::{
    backup_file_name, capture_backup, formula_entries, latest_backup, parse_listing, probe_options, restore_plan,
    BackupCandidate, BackupFile, CaskBackup, Category, FormulaBackup, RestoreRun,
};

fn manifest() -> BackupFile {
    BackupFile {
        created_at: "2024-05-01T10:00:00+00:00".to_string(),
        formulas: vec![
            FormulaBackup { name: "A".to_string(), version: "1".to_string(), options: vec![] },
            FormulaBackup { name: "B".to_string(), version: "2".to_string(), options: vec!["--HEAD".to_string()] },
            FormulaBackup { name: "C".to_string(), version: "3".to_string(), options: vec![] },
        ],
        casks: vec![CaskBackup { name: "firefox".to_string(), version: "125.0".to_string() }],
        taps: vec!["oven-sh/bun".to_string()],
    }
}

#[test]
fn listing_lines_become_packages() {
    let l = parse_listing("git 2.44.0\nwget 1.21.4 1.21.3\n\n   \nlonely\n");
    let got: Vec<(String, String)> = l.into_iter().map(|p| (p.name, p.version)).collect();
    assert_eq!(
        got,
        vec![
            ("git".to_string(), "2.44.0".to_string()),
            ("wget".to_string(), "1.21.4".to_string()),
            ("lonely".to_string(), String::new()),
        ]
    );
}

#[test]
fn probe_keeps_flag_lines_only() {
    let out = "{\n  \"options\": [\n    \"--with-x\",\n    \"plain\"\n  ]\n}\n";
    assert_eq!(probe_options(true, out), vec!["    \"--with-x\",".to_string()]);
    assert!(probe_options(false, out).is_empty());
}

#[test]
fn capture_reads_listings() {
    let f = vec![FormulaBackup { name: "git".to_string(), version: "2.44.0".to_string(), options: vec![] }];
    let b = capture_backup("now".to_string(), "homebrew/core\noven-sh/bun\n", f, "firefox 125.0\n");
    assert_eq!(b.created_at, "now");
    assert_eq!(b.taps, vec!["homebrew/core".to_string(), "oven-sh/bun".to_string()]);
    assert_eq!(b.formulas.len(), 1);
    assert_eq!(b.casks.len(), 1);
    assert_eq!(b.casks[0].name, "firefox");
    assert_eq!(b.casks[0].version, "125.0");
}

#[test]
fn restore_replays_taps_first() {
    let plan = restore_plan(&manifest());
    let cats: Vec<Category> = plan.iter().map(|s| s.category).collect();
    assert_eq!(cats, vec![Category::Tap, Category::Formula, Category::Formula, Category::Formula, Category::Cask]);
    assert_eq!(plan[0].args, vec!["tap", "oven-sh/bun"]);
    assert_eq!(plan[2].args, vec!["install", "B", "--HEAD"]);
    assert_eq!(plan[4].args, vec!["install", "--cask", "firefox"]);
    assert_eq!(plan[4].label, "firefox");
}

#[test]
fn restore_continues_past_a_failure() {
    let b = manifest();
    let mut run = RestoreRun::new(&b);
    let mut attempted = vec![];
    while let Some(step) = run.next_step() {
        attempted.push(step.label.clone());
        let ok = step.label != "B";
        run.record(ok);
    }
    assert!(run.is_finished());
    assert_eq!(attempted, vec!["oven-sh/bun", "A", "B", "C", "firefox"]);
    let s = run.summary();
    assert_eq!(s.formulas.succeeded, 2);
    assert_eq!(s.formulas.failed, 1);
    assert_eq!((s.taps.succeeded, s.taps.failed), (1, 0));
    assert_eq!((s.casks.succeeded, s.casks.failed), (1, 0));
}

#[test]
fn backup_then_restore_replays_same_counts() {
    let listed = parse_listing("git 2.44.0\nwget 1.21.4\n");
    let options = vec![probe_options(false, ""), probe_options(true, "--with-pcre2\n")];
    let formulas = formula_entries(listed, options);
    assert_eq!(formulas[1].options, vec!["--with-pcre2".to_string()]);
    assert_eq!(formulas[0].version, "2.44.0");
    let b = capture_backup("t".to_string(), "homebrew/core\n", formulas, "zoom 6.0\n");
    let mut run = RestoreRun::new(&b);
    while run.next_step().is_some() {
        run.record(true);
    }
    let s = run.summary();
    assert_eq!(s.taps.succeeded + s.taps.failed, 1);
    assert_eq!(s.formulas.succeeded + s.formulas.failed, 2);
    assert_eq!(s.casks.succeeded + s.casks.failed, 1);
    let labels: Vec<String> = run.steps.iter().map(|s| s.label.clone()).collect();
    assert_eq!(labels, vec!["homebrew/core", "git", "wget", "zoom"]);
    assert_eq!(run.steps[2].args, vec!["install", "wget", "--with-pcre2"]);
}

#[test]
fn empty_manifest_restores_nothing() {
    let b = BackupFile { created_at: String::new(), formulas: vec![], casks: vec![], taps: vec![] };
    let run = RestoreRun::new(&b);
    assert!(run.is_finished());
    assert!(run.next_step().is_none());
    assert_eq!(run.summary().formulas.failed, 0);
}

#[test]
fn latest_backup_is_most_recent_json() {
    let c = |n: &str, m: u64| BackupCandidate { file_name: n.to_string(), modified: m };
    let entries = vec![c("bert_backup_1.json", 10), c("notes.txt", 99), c("bert_backup_2.json", 20), c(".json", 50)];
    assert_eq!(latest_backup(&entries), Some(2));
    let ties = vec![c("a.json", 5), c("b.json", 5)];
    assert_eq!(latest_backup(&ties), Some(1));
    assert_eq!(latest_backup(&vec![c("x.txt", 1)]), None);
    assert_eq!(latest_backup(&vec![]), None);
}

#[test]
fn automatic_backup_name() {
    assert_eq!(backup_file_name("20240501_100000"), "bert_backup_20240501_100000.json");
}
