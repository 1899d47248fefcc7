use mlx_rs::linkage::{
    cmake_definitions, embedded_metallib_directives, link_directives, rerun_directives, Profile,
};
use mlx_rs::metallib::{
    check_metallib_size, embedding_assembly, escape_path, MetallibSizeError,
    MAX_JIT_METALLIB_SIZE,
};
use mlx_rs::text::replace;
use mlx_rs::toolchain::{
    developer_directory, find_clang_rt_path, toolchain_base, Answer, Question,
};

#[test]
fn sizes_of_metal_libraries() {
    assert_eq!(MAX_JIT_METALLIB_SIZE, 16 * 1024 * 1024);
    assert_eq!(check_metallib_size(0), Err(MetallibSizeError::Empty));
    assert_eq!(check_metallib_size(1), Ok(()));
    assert_eq!(check_metallib_size(16 * 1024 * 1024), Ok(()));
    assert_eq!(check_metallib_size(16 * 1024 * 1024 + 1), Err(MetallibSizeError::TooLarge));
    assert_eq!(check_metallib_size(u64::MAX), Err(MetallibSizeError::TooLarge));
}

#[test]
fn paths_are_escaped_and_read_back() {
    assert_eq!(replace("a-b--", '-', "+-"), "a+-b+-+-");
    for path in ["", "/out/mlx.metallib", "C:\\out\\mlx", "a\"b", "\\\"", "\"\\\"\\", "größe"] {
        let escaped = escape_path(path);
        assert_eq!(escaped, path.replace('\\', "\\\\").replace('"', "\\\""));
        let mut read = String::new();
        let mut chars = escaped.chars();
        while let Some(c) = chars.next() {
            assert_ne!(c, '"');
            read.push(if c == '\\' { chars.next().unwrap() } else { c });
        }
        assert_eq!(read, path);
    }
}

#[test]
fn assembly_of_the_embedded_library() {
    assert_eq!(
        embedding_assembly("/o\"ut/build/lib/mlx.metallib"),
        ".section __TEXT,__mlx_metal\n\
         .balign 16\n\
         .globl _mlx_embedded_metallib_start\n\
         _mlx_embedded_metallib_start:\n\
         .incbin \"/o\\\"ut/build/lib/mlx.metallib\"\n\
         .globl _mlx_embedded_metallib_end\n\
         _mlx_embedded_metallib_end:\n\
         .subsections_via_symbols\n\
         .no_dead_strip _mlx_embedded_metallib_start\n"
    );
}

fn last_value(profile: Profile, name: &str) -> &'static str {
    cmake_definitions(profile).into_iter().rev().find(|(n, _)| *n == name).unwrap().1
}

#[test]
fn definitions_follow_the_profile() {
    for debug in [false, true] {
        for metal in [false, true] {
            for accelerate in [false, true] {
                let profile = Profile { debug, metal, accelerate };
                let on = |b: bool| if b { "ON" } else { "OFF" };
                assert_eq!(last_value(profile, "MLX_BUILD_METAL"), on(metal));
                assert_eq!(last_value(profile, "MLX_BUILD_ACCELERATE"), on(accelerate));
                assert_eq!(last_value(profile, "MLX_BUILD_GGUF"), "OFF");
                assert_eq!(last_value(profile, "MLX_METAL_JIT"), "ON");
                let kind = if debug { "Debug" } else { "Release" };
                assert_eq!(last_value(profile, "CMAKE_BUILD_TYPE"), kind);
            }
        }
    }
    let plain = cmake_definitions(Profile { debug: false, metal: false, accelerate: false });
    assert_eq!(
        plain,
        [
            ("CMAKE_INSTALL_PREFIX", "."),
            ("CMAKE_C_COMPILER", "/usr/bin/cc"),
            ("CMAKE_CXX_COMPILER", "/usr/bin/c++"),
            ("CMAKE_BUILD_TYPE", "Release"),
            ("MLX_BUILD_METAL", "OFF"),
            ("MLX_BUILD_ACCELERATE", "OFF"),
            ("MLX_BUILD_GGUF", "OFF"),
            ("MLX_METAL_JIT", "ON"),
        ]
    );
}

#[test]
fn instructions_for_cargo() {
    let all = Profile { debug: false, metal: true, accelerate: true };
    assert_eq!(
        link_directives("/out", all, Some("/clang/17/lib/darwin")),
        [
            "cargo:rustc-link-search=native=/out/build/lib",
            "cargo:rustc-link-lib=static=mlx",
            "cargo:rustc-link-lib=static=mlxc",
            "cargo:rustc-link-lib=c++",
            "cargo:rustc-link-lib=dylib=objc",
            "cargo:rustc-link-lib=framework=Foundation",
            "cargo:rustc-link-lib=framework=Metal",
            "cargo:rustc-link-lib=framework=Accelerate",
            "cargo:rustc-link-search=/clang/17/lib/darwin",
            "cargo:rustc-link-lib=static=clang_rt.osx",
        ]
    );
    let none = Profile { debug: false, metal: false, accelerate: false };
    assert_eq!(link_directives("/out", none, None).len(), 6);
    assert_eq!(
        embedded_metallib_directives("/out"),
        [
            "cargo:rustc-link-search=native=/out",
            "cargo:rustc-link-lib=static:+whole-archive=mlx_metallib",
        ]
    );
    let watched = rerun_directives();
    assert_eq!(watched.len(), 9);
    assert_eq!(watched[0], "cargo:rerun-if-changed=src/mlx-c/CMakeLists.txt");
    assert_eq!(
        watched[8],
        "cargo:rerun-if-changed=src/mlx-c/patches/mlx-precise-power.patch"
    );
}

#[test]
fn the_developer_directory_is_trimmed_and_decoded() {
    assert_eq!(
        developer_directory(b" \t/Applications/Xcode.app/Contents/Developer\n"),
        "/Applications/Xcode.app/Contents/Developer"
    );
    assert_eq!(developer_directory("\u{a0}\u{3000}/größe x\u{2028}\r\n".as_bytes()), "/größe x");
    assert_eq!(developer_directory(b"/a\xffb\n"), "/a\u{fffd}b");
    assert_eq!(developer_directory(b" \n"), "");
    // A zero-width space is no whitespace.
    assert_eq!(developer_directory("\u{200b}".as_bytes()), "\u{200b}");
    assert_eq!(
        toolchain_base("/dev"),
        "/dev/Toolchains/XcodeDefault.xctoolchain/usr/lib/clang"
    );
}

#[test]
fn every_character_is_trimmed_as_whitespace_or_kept() {
    for u in 0..=0x10ffffu32 {
        let listed = matches!(
            u,
            0x9..=0xd | 0x20 | 0x85 | 0xa0 | 0x1680 | 0x2000..=0x200a | 0x2028 | 0x2029 | 0x202f
                | 0x205f | 0x3000
        );
        if let Some(c) = char::from_u32(u) {
            let text = c.to_string();
            let kept = developer_directory(text.as_bytes());
            assert_eq!(kept.is_empty(), listed, "{u:x}");
        }
    }
}

#[test]
fn questions_name_commands_and_paths() {
    let first = find_clang_rt_path();
    assert_eq!(first.command(), Some(("xcrun", "--show-sdk-platform-path")));
    assert!(first.below_entry().is_empty());
    let second = first.answered(ran(true, b"/sdk\n"));
    assert_eq!(second.command(), Some(("xcode-select", "--print-path")));
    let third = second.answered(ran(true, b"/dev\n"));
    assert_eq!(third.command(), None);
    assert!(third.below_entry().is_empty());
    let fourth = third.answered(Answer::Listed { count: 1 });
    assert_eq!(fourth.command(), None);
    assert_eq!(fourth.below_entry(), ["lib/darwin", "libclang_rt.osx.a"]);
    let found = fourth.answered(Answer::Looked { exists: true });
    assert_eq!(found.command(), None);
    assert_eq!(found.below_entry(), ["lib/darwin"]);
    assert!(Question::Finished { found: None }.below_entry().is_empty());
}

fn ran(success: bool, stdout: &[u8]) -> Answer {
    Answer::Ran { success, stdout: stdout.to_vec() }
}

/// Makes the search on a machine whose entries have the runtime library, or not.
fn search(present: &[bool]) -> Option<usize> {
    let question = find_clang_rt_path();
    assert!(matches!(question, Question::SdkPlatformPath));
    let question = question.answered(ran(true, b"/sdk\n"));
    assert!(matches!(question, Question::DeveloperDirectory));
    let question = question.answered(ran(true, b"/dev\n"));
    match &question {
        Question::ClangVersions { directory } => assert_eq!(directory, &toolchain_base("/dev")),
        _ => unreachable!(),
    }
    let mut question = question.answered(Answer::Listed { count: present.len() });
    loop {
        question = match question {
            Question::RuntimeLibrary { entry, count } => {
                assert_eq!(count, present.len());
                question.answered(Answer::Looked { exists: present[entry] })
            }
            Question::Finished { found } => return found,
            _ => unreachable!(),
        };
    }
}

#[test]
fn the_first_runtime_library_is_found() {
    assert_eq!(search(&[]), None);
    assert_eq!(search(&[false, false]), None);
    assert_eq!(search(&[true, true]), Some(0));
    assert_eq!(search(&[false, false, true, true]), Some(2));
}

#[test]
fn a_failed_command_ends_the_search() {
    let ended = |q: Question| matches!(q, Question::Finished { found: None });
    assert!(ended(find_clang_rt_path().answered(Answer::NotRun)));
    assert!(ended(find_clang_rt_path().answered(ran(false, b"/sdk"))));
    let second = || find_clang_rt_path().answered(ran(true, b""));
    assert!(ended(second().answered(Answer::NotRun)));
    assert!(ended(second().answered(ran(false, b"/dev"))));
    assert!(ended(second().answered(ran(true, b"/dev")).answered(Answer::NotListed)));
    // An answer to another question.
    assert!(ended(second().answered(Answer::Listed { count: 3 })));
    // The end is the end.
    let found = Question::Finished { found: Some(4) };
    assert!(matches!(
        found.answered(Answer::NotRun),
        Question::Finished { found: Some(4) }
    ));
}
