//! How MLX's C interface is configured and linked: the definitions for CMake and the
//! instructions for Cargo.

use vstd::prelude::*;
use vstd::string::*;

verus! {

/// What is built, and for what.
#[derive(Clone, Copy, Debug, PartialEq, Eq, Structural)]
pub struct Profile {
    /// Build for debugging.
    pub debug: bool,
    /// Build the Metal backend.
    pub metal: bool,
    /// Use the Accelerate framework.
    pub accelerate: bool,
}

/// The pairs of strings as the contracts see them.
pub open spec fn pairs(v: Seq<(&'static str, &'static str)>) -> Seq<(Seq<char>, Seq<char>)> {
    Seq::new(v.len(), |i: int| (v[i].0@, v[i].1@))
}

/// The strings as the contracts see them.
pub open spec fn lines(v: Seq<String>) -> Seq<Seq<char>> {
    Seq::new(v.len(), |i: int| v[i]@)
}

/// The definitions that hold for every profile, before those that a feature adds.
pub open spec fn common_definitions(debug: bool) -> Seq<(Seq<char>, Seq<char>)> {
    seq![
        ("CMAKE_INSTALL_PREFIX"@, "."@),
        ("CMAKE_C_COMPILER"@, "/usr/bin/cc"@),
        ("CMAKE_CXX_COMPILER"@, "/usr/bin/c++"@),
        (
            "CMAKE_BUILD_TYPE"@,
            if debug {
                "Debug"@
            } else {
                "Release"@
            },
        ),
        ("MLX_BUILD_METAL"@, "OFF"@),
        ("MLX_BUILD_ACCELERATE"@, "OFF"@),
        ("MLX_BUILD_GGUF"@, "OFF"@),
        ("MLX_METAL_JIT"@, "ON"@),
    ]
}

/// What a feature adds: a definition that switches the feature on, if it is asked for.
pub open spec fn switched_on(name: Seq<char>, asked: bool) -> Seq<(Seq<char>, Seq<char>)> {
    if asked {
        seq![(name, "ON"@)]
    } else {
        seq![]
    }
}

/// The definitions for a profile, in the order in which they are made.
pub open spec fn definitions_of(profile: Profile) -> Seq<(Seq<char>, Seq<char>)> {
    common_definitions(profile.debug) + switched_on("MLX_BUILD_METAL"@, profile.metal)
        + switched_on("MLX_BUILD_ACCELERATE"@, profile.accelerate)
}

/// The definitions for CMake, in the order in which they are made. Of two definitions of one
/// variable the later one holds.
pub fn cmake_definitions(profile: Profile) -> (r: Vec<(&'static str, &'static str)>)
    ensures
        pairs(r@) == definitions_of(profile),
        r@.len() == 8 + (if profile.metal {
            1int
        } else {
            0int
        }) + (if profile.accelerate {
            1int
        } else {
            0int
        }),
        r@[0].0@ == "CMAKE_INSTALL_PREFIX"@ && r@[0].1@ == "."@,
        r@[1].0@ == "CMAKE_C_COMPILER"@ && r@[1].1@ == "/usr/bin/cc"@,
        r@[2].0@ == "CMAKE_CXX_COMPILER"@ && r@[2].1@ == "/usr/bin/c++"@,
        r@[3].0@ == "CMAKE_BUILD_TYPE"@,
        profile.debug ==> r@[3].1@ == "Debug"@,
        !profile.debug ==> r@[3].1@ == "Release"@,
        r@[4].0@ == "MLX_BUILD_METAL"@ && r@[4].1@ == "OFF"@,
        r@[5].0@ == "MLX_BUILD_ACCELERATE"@ && r@[5].1@ == "OFF"@,
        r@[6].0@ == "MLX_BUILD_GGUF"@ && r@[6].1@ == "OFF"@,
        r@[7].0@ == "MLX_METAL_JIT"@ && r@[7].1@ == "ON"@,
        profile.metal ==> r@[8].0@ == "MLX_BUILD_METAL"@ && r@[8].1@ == "ON"@,
        profile.accelerate ==> r@[r@.len() - 1].0@ == "MLX_BUILD_ACCELERATE"@ && r@[r@.len()
            - 1].1@ == "ON"@,
{
    let mut r: Vec<(&'static str, &'static str)> = Vec::new();
    r.push(("CMAKE_INSTALL_PREFIX", "."));
    // Xcode's compilers go with the macOS SDK.
    r.push(("CMAKE_C_COMPILER", "/usr/bin/cc"));
    r.push(("CMAKE_CXX_COMPILER", "/usr/bin/c++"));
    if profile.debug {
        r.push(("CMAKE_BUILD_TYPE", "Debug"));
    } else {
        r.push(("CMAKE_BUILD_TYPE", "Release"));
    }
    r.push(("MLX_BUILD_METAL", "OFF"));
    r.push(("MLX_BUILD_ACCELERATE", "OFF"));
    r.push(("MLX_BUILD_GGUF", "OFF"));
    r.push(("MLX_METAL_JIT", "ON"));
    assert(pairs(r@) =~= common_definitions(profile.debug));
    let ghost common = r@;
    if profile.metal {
        r.push(("MLX_BUILD_METAL", "ON"));
    }
    assert(pairs(r@) =~= pairs(common) + switched_on("MLX_BUILD_METAL"@, profile.metal));
    let ghost with_metal = r@;
    if profile.accelerate {
        r.push(("MLX_BUILD_ACCELERATE", "ON"));
    }
    assert(pairs(r@) =~= pairs(with_metal) + switched_on(
        "MLX_BUILD_ACCELERATE"@,
        profile.accelerate,
    ));
    r
}

/// The value that the last definition of a variable gives it.
pub open spec fn value_of(
    definitions: Seq<(Seq<char>, Seq<char>)>,
    name: Seq<char>,
) -> Option<Seq<char>>
    decreases definitions.len(),
{
    if definitions.len() == 0 {
        None
    } else if definitions.last().0 == name {
        Some(definitions.last().1)
    } else {
        value_of(definitions.drop_last(), name)
    }
}

/// The value of a switch.
pub open spec fn on_or_off(on: bool) -> Seq<char> {
    if on {
        "ON"@
    } else {
        "OFF"@
    }
}

/// The lines that Cargo is told to watch the sources of the C interface with.
pub open spec fn watched() -> Seq<Seq<char>> {
    seq![
        "cargo:rerun-if-changed=src/mlx-c/CMakeLists.txt"@,
        "cargo:rerun-if-changed=src/mlx-c/mlx/c/fast.cpp"@,
        "cargo:rerun-if-changed=src/mlx-c/mlx/c/fast.h"@,
        "cargo:rerun-if-changed=src/mlx-c/patches/apply-patches.sh"@,
        "cargo:rerun-if-changed=src/mlx-c/patches/mlx-sdpa-head-dim-72.patch"@,
        "cargo:rerun-if-changed=src/mlx-c/patches/mlx-shapeless-split-output-shapes.patch"@,
        "cargo:rerun-if-changed=src/mlx-c/patches/mlx-addmm-gelu-experiment.patch"@,
        "cargo:rerun-if-changed=src/mlx-c/patches/mlx-addmm-gelu-api.patch"@,
        "cargo:rerun-if-changed=src/mlx-c/patches/mlx-precise-power.patch"@,
    ]
}

/// Appends a line.
fn push_line(v: &mut Vec<String>, line: &str)
    ensures
        lines(final(v)@) == lines(old(v)@).push(line@),
        final(v)@.len() == old(v)@.len() + 1,
        final(v)@[old(v)@.len() as int]@ == line@,
        forall|i: int| 0 <= i < old(v)@.len() ==> #[trigger] final(v)@[i] == old(v)@[i],
{
    v.push(line.to_owned());
    assert(lines(v@) =~= lines(old(v)@).push(line@));
}

/// One string and, behind it, another.
fn joined(first: &str, second: &str) -> (r: String)
    ensures
        r@ == first@ + second@,
{
    let mut r = first.to_owned();
    r.append(second);
    r
}

/// The instructions by which Cargo watches the sources of the C interface, which it does not
/// find by itself.
pub fn rerun_directives() -> (r: Vec<String>)
    ensures
        lines(r@) == watched(),
        r@.len() == 9,
        r@[0]@ == "cargo:rerun-if-changed=src/mlx-c/CMakeLists.txt"@,
        r@[1]@ == "cargo:rerun-if-changed=src/mlx-c/mlx/c/fast.cpp"@,
        r@[2]@ == "cargo:rerun-if-changed=src/mlx-c/mlx/c/fast.h"@,
        r@[3]@ == "cargo:rerun-if-changed=src/mlx-c/patches/apply-patches.sh"@,
        r@[4]@ == "cargo:rerun-if-changed=src/mlx-c/patches/mlx-sdpa-head-dim-72.patch"@,
        r@[5]@ == "cargo:rerun-if-changed=src/mlx-c/patches/mlx-shapeless-split-output-shapes.patch"@,
        r@[6]@ == "cargo:rerun-if-changed=src/mlx-c/patches/mlx-addmm-gelu-experiment.patch"@,
        r@[7]@ == "cargo:rerun-if-changed=src/mlx-c/patches/mlx-addmm-gelu-api.patch"@,
        r@[8]@ == "cargo:rerun-if-changed=src/mlx-c/patches/mlx-precise-power.patch"@,
{
    let mut r: Vec<String> = Vec::new();
    push_line(&mut r, "cargo:rerun-if-changed=src/mlx-c/CMakeLists.txt");
    push_line(&mut r, "cargo:rerun-if-changed=src/mlx-c/mlx/c/fast.cpp");
    push_line(&mut r, "cargo:rerun-if-changed=src/mlx-c/mlx/c/fast.h");
    push_line(&mut r, "cargo:rerun-if-changed=src/mlx-c/patches/apply-patches.sh");
    push_line(&mut r, "cargo:rerun-if-changed=src/mlx-c/patches/mlx-sdpa-head-dim-72.patch");
    push_line(
        &mut r,
        "cargo:rerun-if-changed=src/mlx-c/patches/mlx-shapeless-split-output-shapes.patch",
    );
    push_line(&mut r, "cargo:rerun-if-changed=src/mlx-c/patches/mlx-addmm-gelu-experiment.patch");
    push_line(&mut r, "cargo:rerun-if-changed=src/mlx-c/patches/mlx-addmm-gelu-api.patch");
    push_line(&mut r, "cargo:rerun-if-changed=src/mlx-c/patches/mlx-precise-power.patch");
    assert(lines(r@) =~= watched());
    r
}

/// The line that links a framework, if it is asked for.
pub open spec fn framework(line: Seq<char>, asked: bool) -> Seq<Seq<char>> {
    if asked {
        seq![line]
    } else {
        seq![]
    }
}

/// The lines that link clang's runtime library, if it was found.
pub open spec fn clang_runtime(path: Option<Seq<char>>) -> Seq<Seq<char>> {
    match path {
        Some(p) => seq![
            "cargo:rustc-link-search="@ + p,
            "cargo:rustc-link-lib=static=clang_rt.osx"@,
        ],
        None => seq![],
    }
}

/// The lines that link MLX from the directory where it was built.
pub open spec fn mlx_libraries(dst: Seq<char>) -> Seq<Seq<char>> {
    seq![
        "cargo:rustc-link-search=native="@ + dst + "/build/lib"@,
        "cargo:rustc-link-lib=static=mlx"@,
        "cargo:rustc-link-lib=static=mlxc"@,
        "cargo:rustc-link-lib=c++"@,
        "cargo:rustc-link-lib=dylib=objc"@,
        "cargo:rustc-link-lib=framework=Foundation"@,
    ]
}

/// A string that may be absent, as the contracts see it.
pub open spec fn text_of(s: Option<&str>) -> Option<Seq<char>> {
    match s {
        Some(t) => Some(t@),
        None => None,
    }
}

/// The instructions by which Cargo links MLX, the frameworks that the profile asks for, and
/// clang's runtime library where it was found.
pub fn link_directives(dst: &str, profile: Profile, clang_rt_path: Option<&str>) -> (r: Vec<String>)
    ensures
        lines(r@) == mlx_libraries(dst@) + framework(
            "cargo:rustc-link-lib=framework=Metal"@,
            profile.metal,
        ) + framework("cargo:rustc-link-lib=framework=Accelerate"@, profile.accelerate)
            + clang_runtime(text_of(clang_rt_path)),
        r@.len() == 6 + (if profile.metal {
            1int
        } else {
            0int
        }) + (if profile.accelerate {
            1int
        } else {
            0int
        }) + (if clang_rt_path is Some {
            2int
        } else {
            0int
        }),
        r@[0]@ == "cargo:rustc-link-search=native="@ + dst@ + "/build/lib"@,
        r@[1]@ == "cargo:rustc-link-lib=static=mlx"@,
        r@[2]@ == "cargo:rustc-link-lib=static=mlxc"@,
        r@[3]@ == "cargo:rustc-link-lib=c++"@,
        r@[4]@ == "cargo:rustc-link-lib=dylib=objc"@,
        r@[5]@ == "cargo:rustc-link-lib=framework=Foundation"@,
        profile.metal ==> r@[6]@ == "cargo:rustc-link-lib=framework=Metal"@,
        profile.accelerate && profile.metal ==> r@[7]@
            == "cargo:rustc-link-lib=framework=Accelerate"@,
        profile.accelerate && !profile.metal ==> r@[6]@
            == "cargo:rustc-link-lib=framework=Accelerate"@,
        clang_rt_path matches Some(path) ==> {
            &&& r@[r@.len() - 2]@ == "cargo:rustc-link-search="@ + path@
            &&& r@[r@.len() - 1]@ == "cargo:rustc-link-lib=static=clang_rt.osx"@
        },
{
    let mut r: Vec<String> = Vec::new();
    let search = joined("cargo:rustc-link-search=native=", dst);
    push_line(&mut r, joined(search.as_str(), "/build/lib").as_str());
    push_line(&mut r, "cargo:rustc-link-lib=static=mlx");
    push_line(&mut r, "cargo:rustc-link-lib=static=mlxc");
    push_line(&mut r, "cargo:rustc-link-lib=c++");
    push_line(&mut r, "cargo:rustc-link-lib=dylib=objc");
    push_line(&mut r, "cargo:rustc-link-lib=framework=Foundation");
    let ghost libraries = lines(r@);
    assert(libraries =~= mlx_libraries(dst@));
    if profile.metal {
        push_line(&mut r, "cargo:rustc-link-lib=framework=Metal");
    }
    let ghost with_metal = lines(r@);
    assert(with_metal =~= libraries + framework(
        "cargo:rustc-link-lib=framework=Metal"@,
        profile.metal,
    ));
    if profile.accelerate {
        push_line(&mut r, "cargo:rustc-link-lib=framework=Accelerate");
    }
    let ghost with_accelerate = lines(r@);
    assert(with_accelerate =~= with_metal + framework(
        "cargo:rustc-link-lib=framework=Accelerate"@,
        profile.accelerate,
    ));
    // The runtime defines ___isPlatformVersionAtLeast, which macOS 26 and later want.
    if let Some(path) = clang_rt_path {
        push_line(&mut r, joined("cargo:rustc-link-search=", path).as_str());
        push_line(&mut r, "cargo:rustc-link-lib=static=clang_rt.osx");
    }
    assert(lines(r@) =~= with_accelerate + clang_runtime(text_of(clang_rt_path)));
    r
}

/// The instructions by which Cargo links the embedded Metal library.
pub fn embedded_metallib_directives(out_path: &str) -> (r: Vec<String>)
    ensures
        lines(r@) == seq![
            "cargo:rustc-link-search=native="@ + out_path@,
            "cargo:rustc-link-lib=static:+whole-archive=mlx_metallib"@,
        ],
        r@.len() == 2,
        r@[0]@ == "cargo:rustc-link-search=native="@ + out_path@,
        r@[1]@ == "cargo:rustc-link-lib=static:+whole-archive=mlx_metallib"@,
{
    let mut r: Vec<String> = Vec::new();
    push_line(&mut r, joined("cargo:rustc-link-search=native=", out_path).as_str());
    push_line(&mut r, "cargo:rustc-link-lib=static:+whole-archive=mlx_metallib");
    assert(lines(r@) =~= seq![
        "cargo:rustc-link-search=native="@ + out_path@,
        "cargo:rustc-link-lib=static:+whole-archive=mlx_metallib"@,
    ]);
    r
}

/// Each switch is on if and only if the profile asks for it; GGUF is always off and the
/// compilation of kernels on demand always on; the build type follows the profile.
pub proof fn lemma_definitions_follow_the_profile(profile: Profile)
    ensures
        value_of(definitions_of(profile), "MLX_BUILD_METAL"@) == Some(on_or_off(profile.metal)),
        value_of(definitions_of(profile), "MLX_BUILD_ACCELERATE"@) == Some(on_or_off(profile.accelerate)),
        value_of(definitions_of(profile), "MLX_BUILD_GGUF"@) == Some(on_or_off(false)),
        value_of(definitions_of(profile), "MLX_METAL_JIT"@) == Some(on_or_off(true)),
        value_of(definitions_of(profile), "CMAKE_BUILD_TYPE"@) == Some(
            if profile.debug {
                "Debug"@
            } else {
                "Release"@
            },
        ),
{
    lemma_names_differ();
    let definitions = definitions_of(profile);
    lemma_value_of_common(profile.debug);
    let common = common_definitions(profile.debug);
    let metal = switched_on("MLX_BUILD_METAL"@, profile.metal);
    let accelerate = switched_on("MLX_BUILD_ACCELERATE"@, profile.accelerate);
    assert forall|name: Seq<char>| #[trigger]
        value_of(definitions, name) == if profile.accelerate && name == "MLX_BUILD_ACCELERATE"@ {
            Some("ON"@)
        } else if profile.metal && name == "MLX_BUILD_METAL"@ {
            Some("ON"@)
        } else {
            value_of(common, name)
        } by {
        if profile.metal {
            lemma_value_of_push(common, ("MLX_BUILD_METAL"@, "ON"@), name);
            assert(common + metal =~= common.push(("MLX_BUILD_METAL"@, "ON"@)));
        } else {
            assert(common + metal =~= common);
        }
        if profile.accelerate {
            lemma_value_of_push(common + metal, ("MLX_BUILD_ACCELERATE"@, "ON"@), name);
            assert(definitions =~= (common + metal).push(("MLX_BUILD_ACCELERATE"@, "ON"@)));
        } else {
            assert(definitions =~= common + metal);
        }
    }
}

/// The names of the variables differ.
proof fn lemma_names_differ()
    ensures
        "MLX_BUILD_METAL"@.len() == 15,
        "MLX_BUILD_ACCELERATE"@.len() == 20,
        "MLX_BUILD_GGUF"@.len() == 14,
        "MLX_METAL_JIT"@.len() == 13,
        "CMAKE_BUILD_TYPE"@.len() == 16,
{
    reveal_strlit("MLX_BUILD_METAL");
    reveal_strlit("MLX_BUILD_ACCELERATE");
    reveal_strlit("MLX_BUILD_GGUF");
    reveal_strlit("MLX_METAL_JIT");
    reveal_strlit("CMAKE_BUILD_TYPE");
}

/// A further definition gives its variable a value and leaves the others alone.
proof fn lemma_value_of_push(
    definitions: Seq<(Seq<char>, Seq<char>)>,
    d: (Seq<char>, Seq<char>),
    name: Seq<char>,
)
    ensures
        value_of(definitions.push(d), name) == if d.0 == name {
            Some(d.1)
        } else {
            value_of(definitions, name)
        },
{
    assert(definitions.push(d).drop_last() =~= definitions);
}

/// The same of each of several definitions.
proof fn lemma_value_of_prefix(
    definitions: Seq<(Seq<char>, Seq<char>)>,
    i: int,
    name: Seq<char>,
)
    requires
        0 <= i < definitions.len(),
    ensures
        value_of(definitions.take(i + 1), name) == if definitions[i].0 == name {
            Some(definitions[i].1)
        } else {
            value_of(definitions.take(i), name)
        },
{
    lemma_value_of_push(definitions.take(i), definitions[i], name);
    assert(definitions.take(i + 1) =~= definitions.take(i).push(definitions[i]));
}

/// What the common definitions give the variables, apart from the features.
proof fn lemma_value_of_common(debug: bool)
    ensures
        value_of(common_definitions(debug), "MLX_BUILD_METAL"@) == Some("OFF"@),
        value_of(common_definitions(debug), "MLX_BUILD_ACCELERATE"@) == Some("OFF"@),
        value_of(common_definitions(debug), "MLX_BUILD_GGUF"@) == Some("OFF"@),
        value_of(common_definitions(debug), "MLX_METAL_JIT"@) == Some("ON"@),
        value_of(common_definitions(debug), "CMAKE_BUILD_TYPE"@) == Some(
            common_definitions(debug)[3].1,
        ),
{
    lemma_names_differ();
    let common = common_definitions(debug);
    assert(common.take(8) =~= common);
    assert forall|name: Seq<char>| #[trigger]
        value_of(common, name) == if name == "MLX_METAL_JIT"@ {
            Some("ON"@)
        } else if name == "MLX_BUILD_GGUF"@ {
            Some("OFF"@)
        } else if name == "MLX_BUILD_ACCELERATE"@ {
            Some("OFF"@)
        } else if name == "MLX_BUILD_METAL"@ {
            Some("OFF"@)
        } else if name == "CMAKE_BUILD_TYPE"@ {
            Some(common[3].1)
        } else {
            value_of(common.take(3), name)
        } by {
        lemma_value_of_prefix(common, 7, name);
        lemma_value_of_prefix(common, 6, name);
        lemma_value_of_prefix(common, 5, name);
        lemma_value_of_prefix(common, 4, name);
        lemma_value_of_prefix(common, 3, name);
    }
}

} // verus!
