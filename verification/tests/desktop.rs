use syntax_installer::desktop::{
    add_to_mimetypes, create_mimetypes, default_mimetypes, desktop_file_from, desktop_file_path,
    generate_desktop, generate_desktop_entry, generate_mimetypes, generate_mimetypes_str,
    mimeapps_path, mimetypes_files_from, DEFAULT_APPLICATIONS, DESKTOP_FILE, SCHEME_HANDLER,
};
use syntax_installer::error::InstallError;
use syntax_installer::text::{contains_text, joined, replace_text, same_text, to_chars};

const LINE: &str = "x-scheme-handler/syntax-player=syntax-player.desktop\r\n";

#[test]
fn names_of_the_registration() {
    assert_eq!(DESKTOP_FILE, "syntax-player.desktop");
    assert_eq!(SCHEME_HANDLER, "x-scheme-handler/syntax-player");
    assert_eq!(DEFAULT_APPLICATIONS, "[Default Applications]\n");
}

#[test]
fn desktop_entry_describes_the_launcher() {
    let entry = generate_desktop_entry(Some("/opt/syntax/launcher")).unwrap();
    let d = entry.desktop;
    assert_eq!(d.name, "SYNTAX");
    assert_eq!(d.command, "/opt/syntax/launcher %u");
    assert_eq!(d.terminal, "false");
    assert_eq!(d.app_type, "Application");
    assert_eq!(d.mime_type, "x-scheme-handler/syntax-player;");
    assert_eq!(d.icon, "/opt/syntax/launcher");
    assert_eq!(d.startup_wm_class, "SyntaxLauncher");
    assert_eq!(d.categories, "Game;");
    assert_eq!(d.comment, "Syntax Launcher");
}

#[test]
fn desktop_entry_needs_the_location() {
    let e = generate_desktop_entry(None).err().expect("no location, no entry");
    assert_eq!(e, InstallError::MissingExecutable(String::new()));
    assert_eq!(e.message(), "Couldnt locate the binary");
}

#[test]
fn default_mimetypes_name_the_entry_for_the_scheme() {
    let m = default_mimetypes();
    assert_eq!(
        m.default_apps,
        vec![("x-scheme-handler/syntax-player".to_string(), "syntax-player.desktop".to_string())]
    );
    assert_eq!(m.default_apps.len(), 1);
}

#[test]
fn mimetypes_line_as_written() {
    assert_eq!(generate_mimetypes_str(), Ok(LINE.to_string()));
}

#[test]
fn new_mimetypes_file() {
    assert_eq!(create_mimetypes(LINE), format!("[Default Applications]\n{}", LINE));
    assert_eq!(
        add_to_mimetypes(None, LINE),
        Ok(Some(format!("[Default Applications]\n{}", LINE)))
    );
}

#[test]
fn line_is_added_after_the_section_header() {
    let old = "[Added Associations]\na=b\n[Default Applications]\ntext/html=firefox.desktop\n";
    assert_eq!(
        add_to_mimetypes(Some(old), LINE),
        Ok(Some(format!(
            "[Added Associations]\na=b\n[Default Applications]\n{}text/html=firefox.desktop\n",
            LINE
        )))
    );
}

#[test]
fn line_that_is_there_is_not_added_again() {
    let old = format!("[Default Applications]\n{}text/html=firefox.desktop\n", LINE);
    assert_eq!(add_to_mimetypes(Some(&old), LINE), Ok(None));
}

#[test]
fn file_without_the_section_is_refused() {
    assert_eq!(
        add_to_mimetypes(Some("[Added Associations]\na=b\n"), LINE),
        Err(InstallError::NoDefaultApplicationsSection)
    );
    assert_eq!(add_to_mimetypes(Some(""), LINE), Err(InstallError::NoDefaultApplicationsSection));
}

#[test]
fn files_of_the_registration() {
    assert_eq!(
        desktop_file_path("/home/u/.local/share"),
        "/home/u/.local/share/applications/syntax-player.desktop"
    );
    assert_eq!(mimeapps_path("/home/u/.config"), "/home/u/.config/mimeapps.list");
    assert_eq!(
        mimetypes_files_from(Some("/c".to_string()), Some("/d".to_string())),
        Ok(("/c/mimeapps.list".to_string(), "/d/mimeapps.list".to_string()))
    );
    assert_eq!(
        mimetypes_files_from(None, Some("/d".to_string())),
        Err(InstallError::NoLocalDataDirectory)
    );
    assert_eq!(
        mimetypes_files_from(Some("/c".to_string()), None),
        Err(InstallError::NoLocalDataDirectory)
    );
    assert_eq!(
        desktop_file_from(Some("/d".to_string())),
        Ok("/d/applications/syntax-player.desktop".to_string())
    );
    assert_eq!(desktop_file_from(None), Err(InstallError::NoLocalDataDirectory));
}

#[test]
fn files_of_the_current_user() {
    match generate_mimetypes() {
        Ok((config, data)) => {
            assert!(config.ends_with("/mimeapps.list"));
            assert!(data.ends_with("/mimeapps.list"));
        }
        Err(e) => assert_eq!(e, InstallError::NoLocalDataDirectory),
    }
    match generate_desktop() {
        Ok(path) => assert!(path.ends_with("/applications/syntax-player.desktop")),
        Err(e) => assert_eq!(e, InstallError::NoLocalDataDirectory),
    }
}

#[test]
fn text_is_compared_by_characters() {
    assert!(same_text("abc", "abc"));
    assert!(same_text("", ""));
    assert!(!same_text("abc", "abd"));
    assert!(!same_text("abc", "ab"));
    assert!(same_text("日本", "日本"));
    assert_eq!(to_chars("aé日"), vec!['a', 'é', '日']);
    assert_eq!(joined("/a", "b"), "/a/b");
}

#[test]
fn text_search() {
    assert!(contains_text("hello world", "o w"));
    assert!(contains_text("hello", ""));
    assert!(contains_text("", ""));
    assert!(contains_text("hello", "hello"));
    assert!(contains_text("hello", "llo"));
    assert!(!contains_text("hello", "hello!"));
    assert!(!contains_text("", "a"));
    assert!(!contains_text("abcabd", "abe"));
}

#[test]
fn text_replacement() {
    assert_eq!(replace_text("a-b-c", "-", "+"), "a+b+c");
    assert_eq!(replace_text("aaa", "aa", "b"), "ba");
    assert_eq!(replace_text("abc", "x", "y"), "abc");
    assert_eq!(replace_text("abc", "", "y"), "abc");
    assert_eq!(replace_text("abc", "abc", ""), "");
    assert_eq!(replace_text("ab", "abc", "z"), "ab");
    assert_eq!(replace_text("日本日本", "本", "x"), "日x日x");
    assert_eq!(replace_text("xxab", "ab", "cd"), "xxcd");
}
