//! The catalog of toolchains Dream knows how to build and run.

use vstd::prelude::*;

use crate::text::{owned, replace_all, replace_text, same};

verus! {

broadcast use vstd::seq_lib::group_seq_properties;

/// How Dream starts a composed project.
#[derive(Debug, Clone, PartialEq, Eq)]
pub enum Run {
    Argv(Vec<&'static str>),
    /// `{program} {entrypoint}` in dest. The path comes from `entry`.
    Stem { program: &'static str },
}

/// The abstract value of a run step.
pub enum RunView {
    Argv(Seq<Seq<char>>),
    Stem { program: Seq<char> },
}

/// Static texts as their characters.
pub open spec fn strs(v: Seq<&'static str>) -> Seq<Seq<char>> {
    v.map_values(|s: &'static str| s@)
}

impl View for Run {
    type V = RunView;

    open spec fn view(&self) -> RunView {
        match self {
            Run::Argv(argv) => RunView::Argv(strs(argv@)),
            Run::Stem { program } => RunView::Stem { program: program@ },
        }
    }
}

/// One toolchain Dream will exec. `unsupported` is not a row.
///
/// The row owns exec, wipe, docs, setup names, and the entrypoint. The composer writes setup files.
#[derive(Debug, Clone)]
pub struct ToolchainSpec {
    pub name: &'static str,
    /// Empty means no configure step.
    pub configure: Vec<&'static str>,
    /// Empty means no build step.
    pub build: Vec<&'static str>,
    pub run: Run,
    /// Official program names, in order. First is the argv name. Rest are exec fallbacks.
    pub programs: Vec<&'static str>,
    pub install_hint: &'static str,
    /// Official docs. Shown on `set_toolchain` as `docs`. Not a fetch.
    pub docs: &'static str,
    /// Dest paths the composer may write without a `.foo`. Project-owned. `--fresh` drops them.
    pub setup: Vec<&'static str>,
    /// Lockfiles and build dirs. Project-owned. Composer must not write. `--fresh` drops them.
    pub project: Vec<&'static str>,
    /// Dest-relative source the composer should write. `{stem}` is the entry `.foo` stem.
    pub entry: &'static str,
}

/// The abstract value of a catalog row.
pub struct ToolchainView {
    pub name: Seq<char>,
    pub configure: Seq<Seq<char>>,
    pub build: Seq<Seq<char>>,
    pub run: RunView,
    pub programs: Seq<Seq<char>>,
    pub install_hint: Seq<char>,
    pub docs: Seq<char>,
    pub setup: Seq<Seq<char>>,
    pub project: Seq<Seq<char>>,
    pub entry: Seq<char>,
}

impl View for ToolchainSpec {
    type V = ToolchainView;

    open spec fn view(&self) -> ToolchainView {
        ToolchainView {
            name: self.name@,
            configure: strs(self.configure@),
            build: strs(self.build@),
            run: self.run@,
            programs: strs(self.programs@),
            install_hint: self.install_hint@,
            docs: self.docs@,
            setup: strs(self.setup@),
            project: strs(self.project@),
            entry: self.entry@,
        }
    }
}

pub open spec fn row_view(
    name: Seq<char>,
    configure: Seq<Seq<char>>,
    build: Seq<Seq<char>>,
    run: RunView,
    programs: Seq<Seq<char>>,
    install_hint: Seq<char>,
    docs: Seq<char>,
    setup: Seq<Seq<char>>,
    project: Seq<Seq<char>>,
    entry: Seq<char>,
) -> ToolchainView {
    ToolchainView { name, configure, build, run, programs, install_hint, docs, setup, project, entry }
}

/// The number of catalog rows.
pub const CATALOG_LEN: usize = 25;

/// Row `i` of the catalog.
pub open spec fn catalog_row(i: int) -> ToolchainView {
    if i == 0 {
        row_view("cargo"@, seq![], seq!["cargo"@, "build"@], RunView::Argv(seq!["cargo"@, "run"@]), seq!["cargo"@], "Install Rust from https://rustup.rs/"@, "https://doc.rust-lang.org/cargo/"@, seq!["Cargo.toml"@], seq!["Cargo.lock"@, "target"@], "src/main.rs"@)
    } else if i == 1 {
        row_view("go"@, seq![], seq!["go"@, "build"@, "-o"@, "target/"@], RunView::Argv(seq!["go"@, "run"@, "."@]), seq!["go"@], "Install Go from https://go.dev/dl/"@, "https://go.dev/doc/"@, seq!["go.mod"@], seq!["go.sum"@, "target"@], "{stem}.go"@)
    } else if i == 2 {
        row_view("python"@, seq![], seq![], RunView::Stem { program: "python"@ }, seq!["python"@, "python3"@, "py"@], "Install Python 3 from https://www.python.org/downloads/"@, "https://docs.python.org/3/"@, seq!["pyproject.toml"@], seq!["__pycache__"@], "{stem}.py"@)
    } else if i == 3 {
        row_view("node"@, seq!["npm"@, "install"@], seq![], RunView::Stem { program: "node"@ }, seq!["node"@], "Install Node.js from https://nodejs.org/"@, "https://nodejs.org/docs/latest/api/"@, seq!["package.json"@], seq!["package-lock.json"@, "node_modules"@], "{stem}.js"@)
    } else if i == 4 {
        row_view("bun"@, seq!["bun"@, "install"@], seq![], RunView::Stem { program: "bun"@ }, seq!["bun"@], "Install Bun from https://bun.sh/"@, "https://bun.sh/docs"@, seq!["package.json"@], seq!["bun.lock"@, "bun.lockb"@, "node_modules"@], "{stem}.js"@)
    } else if i == 5 {
        row_view("deno"@, seq![], seq![], RunView::Stem { program: "deno"@ }, seq!["deno"@], "Install Deno from https://deno.land/"@, "https://docs.deno.com/"@, seq!["deno.json"@], seq!["deno.lock"@, "node_modules"@], "{stem}.ts"@)
    } else if i == 6 {
        row_view("ruby"@, seq!["bundle"@, "install"@], seq![], RunView::Stem { program: "ruby"@ }, seq!["ruby"@], "Install Ruby from https://www.ruby-lang.org/en/downloads/"@, "https://www.ruby-lang.org/en/documentation/"@, seq!["Gemfile"@], seq!["Gemfile.lock"@, "vendor"@], "{stem}.rb"@)
    } else if i == 7 {
        row_view("php"@, seq!["composer"@, "install"@], seq![], RunView::Stem { program: "php"@ }, seq!["php"@], "Install PHP from https://www.php.net/downloads"@, "https://www.php.net/docs.php"@, seq!["composer.json"@], seq!["composer.lock"@, "vendor"@], "{stem}.php"@)
    } else if i == 8 {
        row_view("dart"@, seq!["dart"@, "pub"@, "get"@], seq![], RunView::Argv(seq!["dart"@, "run"@]), seq!["dart"@], "Install Dart from https://dart.dev/get-dart"@, "https://dart.dev/guides"@, seq!["pubspec.yaml"@], seq!["pubspec.lock"@, ".dart_tool"@], "bin/{stem}.dart"@)
    } else if i == 9 {
        row_view("zig"@, seq![], seq!["zig"@, "build"@], RunView::Argv(seq!["zig"@, "build"@, "run"@]), seq!["zig"@], "Install Zig from https://ziglang.org/download/"@, "https://ziglang.org/documentation/master/"@, seq!["build.zig"@, "build.zig.zon"@], seq!["zig-out"@, ".zig-cache"@], "{stem}.zig"@)
    } else if i == 10 {
        row_view("cmake"@, seq!["cmake"@, "-S"@, "."@, "-B"@, "build"@], seq!["cmake"@, "--build"@, "build"@], RunView::Argv(seq!["cmake"@, "--build"@, "build"@, "--target"@, "run"@]), seq!["cmake"@], "Install CMake from https://cmake.org/download/"@, "https://cmake.org/documentation/"@, seq!["CMakeLists.txt"@], seq!["build"@], "{stem}.c"@)
    } else if i == 11 {
        row_view("maven"@, seq![], seq!["mvn"@, "-q"@, "package"@], RunView::Argv(seq!["mvn"@, "-q"@, "exec:java"@]), seq!["mvn"@], "Install Maven from https://maven.apache.org/download.cgi"@, "https://maven.apache.org/guides/"@, seq!["pom.xml"@], seq!["target"@], "src/main/java/App.java"@)
    } else if i == 12 {
        row_view("gradle"@, seq![], seq!["gradle"@, "-q"@, "build"@], RunView::Argv(seq!["gradle"@, "-q"@, "run"@]), seq!["gradle"@], "Install Gradle from https://gradle.org/install/"@, "https://docs.gradle.org/"@, seq!["build.gradle.kts"@], seq![".gradle"@, "build"@], "src/main/java/App.java"@)
    } else if i == 13 {
        row_view("dotnet"@, seq![], seq!["dotnet"@, "build"@], RunView::Argv(seq!["dotnet"@, "run"@]), seq!["dotnet"@], "Install .NET from https://dot.net/"@, "https://learn.microsoft.com/dotnet/"@, seq!["App.csproj"@], seq!["obj"@, "bin"@], "{stem}.cs"@)
    } else if i == 14 {
        row_view("swift"@, seq![], seq!["swift"@, "build"@], RunView::Argv(seq!["swift"@, "run"@]), seq!["swift"@], "Install Swift from https://www.swift.org/install/"@, "https://www.swift.org/documentation/"@, seq!["Package.swift"@], seq![".build"@], "Sources/App/main.swift"@)
    } else if i == 15 {
        row_view("elixir"@, seq!["mix"@, "deps.get"@], seq!["mix"@, "escript.build"@], RunView::Argv(seq!["target/app"@]), seq!["mix"@], "Install Elixir from https://elixir-lang.org/install.html"@, "https://hexdocs.pm/elixir/"@, seq!["mix.exs"@], seq!["_build"@, "deps"@, "mix.lock"@, "target"@], "lib/app.ex"@)
    } else if i == 16 {
        row_view("haskell"@, seq![], seq!["cabal"@, "build"@], RunView::Argv(seq!["cabal"@, "run"@]), seq!["cabal"@], "Install Cabal from https://www.haskell.org/cabal/"@, "https://www.haskell.org/cabal/users-guide/"@, seq!["app.cabal"@], seq!["dist-newstyle"@, "cabal.project.local"@], "Main.hs"@)
    } else if i == 17 {
        row_view("nim"@, seq![], seq!["nimble"@, "build"@], RunView::Argv(seq!["nimble"@, "run"@]), seq!["nim"@, "nimble"@], "Install Nim from https://nim-lang.org/install.html"@, "https://nim-lang.org/docs/overview.html"@, seq!["app.nimble"@], seq!["nimbledeps"@, "target"@], "{stem}.nim"@)
    } else if i == 18 {
        row_view("crystal"@, seq!["shards"@, "install"@], seq!["shards"@, "build"@], RunView::Argv(seq!["bin/app"@]), seq!["crystal"@, "shards"@], "Install Crystal from https://crystal-lang.org/install/"@, "https://crystal-lang.org/reference/latest/"@, seq!["shard.yml"@], seq!["lib"@, "shard.lock"@, "bin"@], "{stem}.cr"@)
    } else if i == 19 {
        row_view("lua"@, seq![], seq![], RunView::Stem { program: "lua"@ }, seq!["lua"@, "lua5.4"@, "lua5.3"@], "Install Lua from https://www.lua.org/download.html"@, "https://www.lua.org/manual/5.4/"@, seq![], seq![], "{stem}.lua"@)
    } else if i == 20 {
        row_view("r"@, seq![], seq![], RunView::Stem { program: "Rscript"@ }, seq!["Rscript"@], "Install R from https://cran.r-project.org/"@, "https://cran.r-project.org/manuals.html"@, seq!["DESCRIPTION"@], seq![], "{stem}.R"@)
    } else if i == 21 {
        row_view("perl"@, seq![], seq![], RunView::Stem { program: "perl"@ }, seq!["perl"@], "Install Perl from https://www.perl.org/get.html"@, "https://perldoc.perl.org/"@, seq!["cpanfile"@], seq!["local"@, "cpanfile.snapshot"@], "{stem}.pl"@)
    } else if i == 22 {
        row_view("scala"@, seq![], seq!["sbt"@, "-batch"@, "compile"@], RunView::Argv(seq!["sbt"@, "-batch"@, "run"@]), seq!["sbt"@], "Install sbt from https://www.scala-sbt.org/download.html"@, "https://docs.scala-lang.org/"@, seq!["build.sbt"@], seq!["target"@, "project/target"@], "src/main/scala/App.scala"@)
    } else if i == 23 {
        row_view("ocaml"@, seq![], seq!["dune"@, "build"@], RunView::Argv(seq!["dune"@, "exec"@, "./app.exe"@]), seq!["dune"@], "Install Dune from https://dune.build/install"@, "https://dune.readthedocs.io/"@, seq!["dune-project"@, "dune"@], seq!["_build"@], "app.ml"@)
    } else if i == 24 {
        row_view("make"@, seq![], seq!["make"@], RunView::Argv(seq!["make"@, "run"@]), seq!["make"@], "Install Make from your system package manager."@, "https://www.gnu.org/software/make/manual/make.html"@, seq!["Makefile"@], seq!["target"@], "{stem}.c"@)
    } else {
        row_view(seq![], seq![], seq![], RunView::Argv(seq![]), seq![], seq![], seq![], seq![], seq![], seq![])
    }
}

#[allow(clippy::too_many_arguments)]
fn row_of(
    name: &'static str,
    configure: Vec<&'static str>,
    build: Vec<&'static str>,
    run: Run,
    programs: Vec<&'static str>,
    install_hint: &'static str,
    docs: &'static str,
    setup: Vec<&'static str>,
    project: Vec<&'static str>,
    entry: &'static str,
) -> (r: ToolchainSpec)
    ensures
        r@ == row_view(name@, strs(configure@), strs(build@), run@, strs(programs@), install_hint@, docs@, strs(setup@), strs(project@), entry@),
{
    ToolchainSpec { name, configure, build, run, programs, install_hint, docs, setup, project, entry }
}

/// Row `i` of the catalog.
#[verifier::rlimit(60)]
pub fn row(i: usize) -> (r: ToolchainSpec)
    requires
        i < CATALOG_LEN,
    ensures
        r@ == catalog_row(i as int),
{
    let r = match i {
        0 => row_of("cargo", Vec::new(), vec!["cargo", "build"], Run::Argv(vec!["cargo", "run"]), vec!["cargo"], "Install Rust from https://rustup.rs/", "https://doc.rust-lang.org/cargo/", vec!["Cargo.toml"], vec!["Cargo.lock", "target"], "src/main.rs"),
        1 => row_of("go", Vec::new(), vec!["go", "build", "-o", "target/"], Run::Argv(vec!["go", "run", "."]), vec!["go"], "Install Go from https://go.dev/dl/", "https://go.dev/doc/", vec!["go.mod"], vec!["go.sum", "target"], "{stem}.go"),
        2 => row_of("python", Vec::new(), Vec::new(), Run::Stem { program: "python" }, vec!["python", "python3", "py"], "Install Python 3 from https://www.python.org/downloads/", "https://docs.python.org/3/", vec!["pyproject.toml"], vec!["__pycache__"], "{stem}.py"),
        3 => row_of("node", vec!["npm", "install"], Vec::new(), Run::Stem { program: "node" }, vec!["node"], "Install Node.js from https://nodejs.org/", "https://nodejs.org/docs/latest/api/", vec!["package.json"], vec!["package-lock.json", "node_modules"], "{stem}.js"),
        4 => row_of("bun", vec!["bun", "install"], Vec::new(), Run::Stem { program: "bun" }, vec!["bun"], "Install Bun from https://bun.sh/", "https://bun.sh/docs", vec!["package.json"], vec!["bun.lock", "bun.lockb", "node_modules"], "{stem}.js"),
        5 => row_of("deno", Vec::new(), Vec::new(), Run::Stem { program: "deno" }, vec!["deno"], "Install Deno from https://deno.land/", "https://docs.deno.com/", vec!["deno.json"], vec!["deno.lock", "node_modules"], "{stem}.ts"),
        6 => row_of("ruby", vec!["bundle", "install"], Vec::new(), Run::Stem { program: "ruby" }, vec!["ruby"], "Install Ruby from https://www.ruby-lang.org/en/downloads/", "https://www.ruby-lang.org/en/documentation/", vec!["Gemfile"], vec!["Gemfile.lock", "vendor"], "{stem}.rb"),
        7 => row_of("php", vec!["composer", "install"], Vec::new(), Run::Stem { program: "php" }, vec!["php"], "Install PHP from https://www.php.net/downloads", "https://www.php.net/docs.php", vec!["composer.json"], vec!["composer.lock", "vendor"], "{stem}.php"),
        8 => row_of("dart", vec!["dart", "pub", "get"], Vec::new(), Run::Argv(vec!["dart", "run"]), vec!["dart"], "Install Dart from https://dart.dev/get-dart", "https://dart.dev/guides", vec!["pubspec.yaml"], vec!["pubspec.lock", ".dart_tool"], "bin/{stem}.dart"),
        9 => row_of("zig", Vec::new(), vec!["zig", "build"], Run::Argv(vec!["zig", "build", "run"]), vec!["zig"], "Install Zig from https://ziglang.org/download/", "https://ziglang.org/documentation/master/", vec!["build.zig", "build.zig.zon"], vec!["zig-out", ".zig-cache"], "{stem}.zig"),
        10 => row_of("cmake", vec!["cmake", "-S", ".", "-B", "build"], vec!["cmake", "--build", "build"], Run::Argv(vec!["cmake", "--build", "build", "--target", "run"]), vec!["cmake"], "Install CMake from https://cmake.org/download/", "https://cmake.org/documentation/", vec!["CMakeLists.txt"], vec!["build"], "{stem}.c"),
        11 => row_of("maven", Vec::new(), vec!["mvn", "-q", "package"], Run::Argv(vec!["mvn", "-q", "exec:java"]), vec!["mvn"], "Install Maven from https://maven.apache.org/download.cgi", "https://maven.apache.org/guides/", vec!["pom.xml"], vec!["target"], "src/main/java/App.java"),
        12 => row_of("gradle", Vec::new(), vec!["gradle", "-q", "build"], Run::Argv(vec!["gradle", "-q", "run"]), vec!["gradle"], "Install Gradle from https://gradle.org/install/", "https://docs.gradle.org/", vec!["build.gradle.kts"], vec![".gradle", "build"], "src/main/java/App.java"),
        13 => row_of("dotnet", Vec::new(), vec!["dotnet", "build"], Run::Argv(vec!["dotnet", "run"]), vec!["dotnet"], "Install .NET from https://dot.net/", "https://learn.microsoft.com/dotnet/", vec!["App.csproj"], vec!["obj", "bin"], "{stem}.cs"),
        14 => row_of("swift", Vec::new(), vec!["swift", "build"], Run::Argv(vec!["swift", "run"]), vec!["swift"], "Install Swift from https://www.swift.org/install/", "https://www.swift.org/documentation/", vec!["Package.swift"], vec![".build"], "Sources/App/main.swift"),
        15 => row_of("elixir", vec!["mix", "deps.get"], vec!["mix", "escript.build"], Run::Argv(vec!["target/app"]), vec!["mix"], "Install Elixir from https://elixir-lang.org/install.html", "https://hexdocs.pm/elixir/", vec!["mix.exs"], vec!["_build", "deps", "mix.lock", "target"], "lib/app.ex"),
        16 => row_of("haskell", Vec::new(), vec!["cabal", "build"], Run::Argv(vec!["cabal", "run"]), vec!["cabal"], "Install Cabal from https://www.haskell.org/cabal/", "https://www.haskell.org/cabal/users-guide/", vec!["app.cabal"], vec!["dist-newstyle", "cabal.project.local"], "Main.hs"),
        17 => row_of("nim", Vec::new(), vec!["nimble", "build"], Run::Argv(vec!["nimble", "run"]), vec!["nim", "nimble"], "Install Nim from https://nim-lang.org/install.html", "https://nim-lang.org/docs/overview.html", vec!["app.nimble"], vec!["nimbledeps", "target"], "{stem}.nim"),
        18 => row_of("crystal", vec!["shards", "install"], vec!["shards", "build"], Run::Argv(vec!["bin/app"]), vec!["crystal", "shards"], "Install Crystal from https://crystal-lang.org/install/", "https://crystal-lang.org/reference/latest/", vec!["shard.yml"], vec!["lib", "shard.lock", "bin"], "{stem}.cr"),
        19 => row_of("lua", Vec::new(), Vec::new(), Run::Stem { program: "lua" }, vec!["lua", "lua5.4", "lua5.3"], "Install Lua from https://www.lua.org/download.html", "https://www.lua.org/manual/5.4/", Vec::new(), Vec::new(), "{stem}.lua"),
        20 => row_of("r", Vec::new(), Vec::new(), Run::Stem { program: "Rscript" }, vec!["Rscript"], "Install R from https://cran.r-project.org/", "https://cran.r-project.org/manuals.html", vec!["DESCRIPTION"], Vec::new(), "{stem}.R"),
        21 => row_of("perl", Vec::new(), Vec::new(), Run::Stem { program: "perl" }, vec!["perl"], "Install Perl from https://www.perl.org/get.html", "https://perldoc.perl.org/", vec!["cpanfile"], vec!["local", "cpanfile.snapshot"], "{stem}.pl"),
        22 => row_of("scala", Vec::new(), vec!["sbt", "-batch", "compile"], Run::Argv(vec!["sbt", "-batch", "run"]), vec!["sbt"], "Install sbt from https://www.scala-sbt.org/download.html", "https://docs.scala-lang.org/", vec!["build.sbt"], vec!["target", "project/target"], "src/main/scala/App.scala"),
        23 => row_of("ocaml", Vec::new(), vec!["dune", "build"], Run::Argv(vec!["dune", "exec", "./app.exe"]), vec!["dune"], "Install Dune from https://dune.build/install", "https://dune.readthedocs.io/", vec!["dune-project", "dune"], vec!["_build"], "app.ml"),
        24 => row_of("make", Vec::new(), vec!["make"], Run::Argv(vec!["make", "run"]), vec!["make"], "Install Make from your system package manager.", "https://www.gnu.org/software/make/manual/make.html", vec!["Makefile"], vec!["target"], "{stem}.c"),
        _ => row_of("make", Vec::new(), vec!["make"], Run::Argv(vec!["make", "run"]), vec!["make"], "Install Make from your system package manager.", "https://www.gnu.org/software/make/manual/make.html", vec!["Makefile"], vec!["target"], "{stem}.c"),
    };
    assert(r@.configure =~= catalog_row(i as int).configure);
    assert(r@.build =~= catalog_row(i as int).build);
    assert(r@.programs =~= catalog_row(i as int).programs);
    assert(r@.setup =~= catalog_row(i as int).setup);
    assert(r@.project =~= catalog_row(i as int).project);
    assert(match (r@.run, catalog_row(i as int).run) {
        (RunView::Argv(a), RunView::Argv(b)) => a =~= b,
        _ => true,
    });
    r
}

/// Index of the first catalog row at or after `from` named `name`, or `-1`.
pub open spec fn row_index_from(name: Seq<char>, from: int) -> int
    decreases CATALOG_LEN - from,
{
    if from < 0 || from >= CATALOG_LEN {
        -1
    } else if catalog_row(from).name == name {
        from
    } else {
        row_index_from(name, from + 1)
    }
}

/// Index of the catalog row named `name`, or `-1`.
pub open spec fn row_index(name: Seq<char>) -> int {
    row_index_from(name, 0)
}

proof fn lemma_row_index_from(name: Seq<char>, from: int)
    requires
        0 <= from <= CATALOG_LEN,
    ensures
        -1 <= row_index_from(name, from) < CATALOG_LEN,
        row_index_from(name, from) >= 0 ==> from <= row_index_from(name, from)
            && catalog_row(row_index_from(name, from)).name == name,
        row_index_from(name, from) < 0 ==> forall|j: int| from <= j < CATALOG_LEN ==> catalog_row(j).name != name,
    decreases CATALOG_LEN - from,
{
    if from < CATALOG_LEN && catalog_row(from).name != name {
        lemma_row_index_from(name, from + 1);
    }
}

/// Facts about `row_index`.
pub proof fn lemma_row_index(name: Seq<char>)
    ensures
        -1 <= row_index(name) < CATALOG_LEN,
        row_index(name) >= 0 ==> catalog_row(row_index(name)).name == name,
        row_index(name) < 0 ==> forall|j: int| 0 <= j < CATALOG_LEN ==> catalog_row(j).name != name,
{
    lemma_row_index_from(name, 0);
}

/// Position of the catalog row named `name`.
pub fn row_index_of(name: &str) -> (r: Option<usize>)
    ensures
        match r {
            Some(i) => row_index(name@) == i && i < CATALOG_LEN,
            None => row_index(name@) == -1,
        },
{
    proof {
        lemma_row_index(name@);
    }
    let mut i: usize = 0;
    while i < CATALOG_LEN
        invariant
            i <= CATALOG_LEN,
            row_index(name@) == row_index_from(name@, i as int),
        decreases CATALOG_LEN - i,
    {
        let r = row(i);
        if same(r.name, name) {
            return Some(i);
        }
        i = i + 1;
    }
    None
}

/// The catalog row named `name`.
pub fn spec(name: &str) -> (r: Option<ToolchainSpec>)
    ensures
        match r {
            Some(s) => row_index(name@) >= 0 && s@ == catalog_row(row_index(name@)),
            None => row_index(name@) == -1,
        },
{
    match row_index_of(name) {
        Some(i) => Some(row(i)),
        None => None,
    }
}

/// The placeholder in `entry` that stands for the entry `.foo` stem.
pub open spec fn stem_marker() -> Seq<char> {
    seq!['{', 's', 't', 'e', 'm', '}']
}

/// The entrypoint a row asks for, for the entry stem `stem`.
pub open spec fn entry_for(entry: Seq<char>, stem: Seq<char>) -> Seq<char> {
    replace_all(entry, stem_marker(), stem)
}

/// The argv that runs a composed project.
pub open spec fn run_argv_of(t: ToolchainView, stem: Seq<char>) -> Seq<Seq<char>> {
    match t.run {
        RunView::Argv(argv) => argv,
        RunView::Stem { program } => seq![program, entry_for(t.entry, stem)],
    }
}

impl ToolchainSpec {
    /// The argv that runs the composed project whose entry `.foo` has stem `entry_stem`.
    pub fn run_argv(&self, entry_stem: &str) -> (r: Vec<String>)
        ensures
            crate::text::texts(r@) == run_argv_of(self@, entry_stem@),
    {
        match &self.run {
            Run::Argv(argv) => {
                let mut out: Vec<String> = Vec::new();
                let mut i: usize = 0;
                while i < argv.len()
                    invariant
                        i <= argv@.len(),
                        crate::text::texts(out@) == strs(argv@).take(i as int),
                    decreases argv@.len() - i,
                {
                    let ghost before = crate::text::texts(out@);
                    let item = owned(argv[i]);
                    out.push(item);
                    proof {
                        assert(crate::text::texts(out@) =~= before.push(item@));
                        assert(crate::text::texts(out@) =~= strs(argv@).take(i + 1));
                    }
                    i = i + 1;
                }
                assert(strs(argv@).take(argv@.len() as int) =~= strs(argv@));
                out
            },
            Run::Stem { program } => {
                let mut out: Vec<String> = Vec::new();
                out.push(owned(program));
                out.push(self.owned_entry(entry_stem));
                assert(crate::text::texts(out@) =~= seq![program@, entry_for(self.entry@, entry_stem@)]);
                out
            },
        }
    }

    /// The dest path of the entrypoint for the entry stem `entry_stem`.
    pub fn owned_entry(&self, entry_stem: &str) -> (r: String)
        ensures
            r@ == entry_for(self.entry@, entry_stem@),
    {
        let marker = "{stem}";
        proof {
            reveal_strlit("{stem}");
            assert(marker@ =~= stem_marker());
        }
        replace_text(self.entry, marker, entry_stem)
    }

    /// Is `rel` one of this row's setup files?
    pub fn is_setup(&self, rel: &str) -> (r: bool)
        ensures
            r == self@.setup.contains(rel@),
    {
        str_list_contains(&self.setup, rel)
    }

    /// Is `rel` one of this row's lockfiles or build dirs?
    pub fn is_wipe(&self, rel: &str) -> (r: bool)
        ensures
            r == self@.project.contains(rel@),
    {
        str_list_contains(&self.project, rel)
    }

    /// Dest paths this row owns: setup files, then lockfiles and build dirs.
    pub fn owned_dest(&self) -> (r: Vec<String>)
        ensures
            crate::text::texts(r@) == self@.setup + self@.project,
    {
        let mut out: Vec<String> = Vec::new();
        let mut i: usize = 0;
        while i < self.setup.len()
            invariant
                i <= self.setup@.len(),
                crate::text::texts(out@) == strs(self.setup@).take(i as int),
            decreases self.setup@.len() - i,
        {
            let ghost before = crate::text::texts(out@);
            let item = owned(self.setup[i]);
            out.push(item);
            proof {
                assert(crate::text::texts(out@) =~= before.push(item@));
                assert(crate::text::texts(out@) =~= strs(self.setup@).take(i + 1));
            }
            i = i + 1;
        }
        assert(strs(self.setup@).take(self.setup@.len() as int) =~= strs(self.setup@));
        let mut j: usize = 0;
        while j < self.project.len()
            invariant
                j <= self.project@.len(),
                crate::text::texts(out@) == strs(self.setup@) + strs(self.project@).take(j as int),
            decreases self.project@.len() - j,
        {
            let ghost before = crate::text::texts(out@);
            let item = owned(self.project[j]);
            out.push(item);
            proof {
                assert(crate::text::texts(out@) =~= before.push(item@));
                assert(crate::text::texts(out@) =~= strs(self.setup@) + strs(self.project@).take(j + 1));
            }
            j = j + 1;
        }
        assert(strs(self.project@).take(self.project@.len() as int) =~= strs(self.project@));
        out
    }
}

/// Whether `s` is in the list of static texts.
pub fn str_list_contains(v: &Vec<&'static str>, s: &str) -> (r: bool)
    ensures
        r == strs(v@).contains(s@),
{
    let mut i: usize = 0;
    while i < v.len()
        invariant
            i <= v@.len(),
            forall|j: int| 0 <= j < i ==> v@[j]@ != s@,
        decreases v@.len() - i,
    {
        if same(v[i], s) {
            assert(strs(v@)[i as int] == s@);
            return true;
        }
        i = i + 1;
    }
    assert forall|j: int| 0 <= j < strs(v@).len() implies strs(v@)[j] != s@ by {}
    false
}

/// No catalog row is named `unsupported`.
pub proof fn lemma_unsupported_is_not_a_row()
    ensures
        forall|i: int| 0 <= i < CATALOG_LEN ==> catalog_row(i).name != "unsupported"@,
{
    reveal_strlit("unsupported");
    assert forall|i: int| 0 <= i < CATALOG_LEN implies catalog_row(i).name != "unsupported"@ by {
        reveal_strlit("cargo");
        reveal_strlit("go");
        reveal_strlit("python");
        reveal_strlit("node");
        reveal_strlit("bun");
        reveal_strlit("deno");
        reveal_strlit("ruby");
        reveal_strlit("php");
        reveal_strlit("dart");
        reveal_strlit("zig");
        reveal_strlit("cmake");
        reveal_strlit("maven");
        reveal_strlit("gradle");
        reveal_strlit("dotnet");
        reveal_strlit("swift");
        reveal_strlit("elixir");
        reveal_strlit("haskell");
        reveal_strlit("nim");
        reveal_strlit("crystal");
        reveal_strlit("lua");
        reveal_strlit("r");
        reveal_strlit("perl");
        reveal_strlit("scala");
        reveal_strlit("ocaml");
        reveal_strlit("make");
        if catalog_row(i).name == "unsupported"@ {
            assert(catalog_row(i).name.len() == 11);
        }
    }
}

/// Catalog rows have distinct, non-empty names.
pub proof fn lemma_catalog_names_unique()
    ensures
        forall|i: int, j: int| 0 <= i < j < CATALOG_LEN ==> catalog_row(i).name != catalog_row(j).name,
        forall|i: int| 0 <= i < CATALOG_LEN ==> catalog_row(i).name.len() > 0,
{
    reveal_strlit("cargo");
    reveal_strlit("go");
    reveal_strlit("python");
    reveal_strlit("node");
    reveal_strlit("bun");
    reveal_strlit("deno");
    reveal_strlit("ruby");
    reveal_strlit("php");
    reveal_strlit("dart");
    reveal_strlit("zig");
    reveal_strlit("cmake");
    reveal_strlit("maven");
    reveal_strlit("gradle");
    reveal_strlit("dotnet");
    reveal_strlit("swift");
    reveal_strlit("elixir");
    reveal_strlit("haskell");
    reveal_strlit("nim");
    reveal_strlit("crystal");
    reveal_strlit("lua");
    reveal_strlit("r");
    reveal_strlit("perl");
    reveal_strlit("scala");
    reveal_strlit("ocaml");
    reveal_strlit("make");
    assert forall|i: int, j: int| 0 <= i < j < CATALOG_LEN implies catalog_row(i).name != catalog_row(j).name by {
        if i == 0 {
            assert(catalog_row(0).name.len() == 5);
            assert(catalog_row(0).name[0] == 'c');
            assert(catalog_row(1).name.len() == 2);
            assert(catalog_row(2).name.len() == 6);
            assert(catalog_row(3).name.len() == 4);
            assert(catalog_row(4).name.len() == 3);
            assert(catalog_row(5).name.len() == 4);
            assert(catalog_row(6).name.len() == 4);
            assert(catalog_row(7).name.len() == 3);
            assert(catalog_row(8).name.len() == 4);
            assert(catalog_row(9).name.len() == 3);
            assert(catalog_row(10).name[1] == 'm');
            assert(catalog_row(11).name[0] == 'm');
            assert(catalog_row(12).name.len() == 6);
            assert(catalog_row(13).name.len() == 6);
            assert(catalog_row(14).name[0] == 's');
            assert(catalog_row(15).name.len() == 6);
            assert(catalog_row(16).name.len() == 7);
            assert(catalog_row(17).name.len() == 3);
            assert(catalog_row(18).name.len() == 7);
            assert(catalog_row(19).name.len() == 3);
            assert(catalog_row(20).name.len() == 1);
            assert(catalog_row(21).name.len() == 4);
            assert(catalog_row(22).name[0] == 's');
            assert(catalog_row(23).name[0] == 'o');
            assert(catalog_row(24).name.len() == 4);
        }
        if i == 1 {
            assert(catalog_row(1).name.len() == 2);
            assert(catalog_row(1).name[0] == 'g');
            assert(catalog_row(2).name.len() == 6);
            assert(catalog_row(3).name.len() == 4);
            assert(catalog_row(4).name.len() == 3);
            assert(catalog_row(5).name.len() == 4);
            assert(catalog_row(6).name.len() == 4);
            assert(catalog_row(7).name.len() == 3);
            assert(catalog_row(8).name.len() == 4);
            assert(catalog_row(9).name.len() == 3);
            assert(catalog_row(10).name.len() == 5);
            assert(catalog_row(11).name.len() == 5);
            assert(catalog_row(12).name.len() == 6);
            assert(catalog_row(13).name.len() == 6);
            assert(catalog_row(14).name.len() == 5);
            assert(catalog_row(15).name.len() == 6);
            assert(catalog_row(16).name.len() == 7);
            assert(catalog_row(17).name.len() == 3);
            assert(catalog_row(18).name.len() == 7);
            assert(catalog_row(19).name.len() == 3);
            assert(catalog_row(20).name.len() == 1);
            assert(catalog_row(21).name.len() == 4);
            assert(catalog_row(22).name.len() == 5);
            assert(catalog_row(23).name.len() == 5);
            assert(catalog_row(24).name.len() == 4);
        }
        if i == 2 {
            assert(catalog_row(2).name.len() == 6);
            assert(catalog_row(2).name[0] == 'p');
            assert(catalog_row(3).name.len() == 4);
            assert(catalog_row(4).name.len() == 3);
            assert(catalog_row(5).name.len() == 4);
            assert(catalog_row(6).name.len() == 4);
            assert(catalog_row(7).name.len() == 3);
            assert(catalog_row(8).name.len() == 4);
            assert(catalog_row(9).name.len() == 3);
            assert(catalog_row(10).name.len() == 5);
            assert(catalog_row(11).name.len() == 5);
            assert(catalog_row(12).name[0] == 'g');
            assert(catalog_row(13).name[0] == 'd');
            assert(catalog_row(14).name.len() == 5);
            assert(catalog_row(15).name[0] == 'e');
            assert(catalog_row(16).name.len() == 7);
            assert(catalog_row(17).name.len() == 3);
            assert(catalog_row(18).name.len() == 7);
            assert(catalog_row(19).name.len() == 3);
            assert(catalog_row(20).name.len() == 1);
            assert(catalog_row(21).name.len() == 4);
            assert(catalog_row(22).name.len() == 5);
            assert(catalog_row(23).name.len() == 5);
            assert(catalog_row(24).name.len() == 4);
        }
        if i == 3 {
            assert(catalog_row(3).name.len() == 4);
            assert(catalog_row(3).name[0] == 'n');
            assert(catalog_row(4).name.len() == 3);
            assert(catalog_row(5).name[0] == 'd');
            assert(catalog_row(6).name[0] == 'r');
            assert(catalog_row(7).name.len() == 3);
            assert(catalog_row(8).name[0] == 'd');
            assert(catalog_row(9).name.len() == 3);
            assert(catalog_row(10).name.len() == 5);
            assert(catalog_row(11).name.len() == 5);
            assert(catalog_row(12).name.len() == 6);
            assert(catalog_row(13).name.len() == 6);
            assert(catalog_row(14).name.len() == 5);
            assert(catalog_row(15).name.len() == 6);
            assert(catalog_row(16).name.len() == 7);
            assert(catalog_row(17).name.len() == 3);
            assert(catalog_row(18).name.len() == 7);
            assert(catalog_row(19).name.len() == 3);
            assert(catalog_row(20).name.len() == 1);
            assert(catalog_row(21).name[0] == 'p');
            assert(catalog_row(22).name.len() == 5);
            assert(catalog_row(23).name.len() == 5);
            assert(catalog_row(24).name[0] == 'm');
        }
        if i == 4 {
            assert(catalog_row(4).name.len() == 3);
            assert(catalog_row(4).name[0] == 'b');
            assert(catalog_row(5).name.len() == 4);
            assert(catalog_row(6).name.len() == 4);
            assert(catalog_row(7).name[0] == 'p');
            assert(catalog_row(8).name.len() == 4);
            assert(catalog_row(9).name[0] == 'z');
            assert(catalog_row(10).name.len() == 5);
            assert(catalog_row(11).name.len() == 5);
            assert(catalog_row(12).name.len() == 6);
            assert(catalog_row(13).name.len() == 6);
            assert(catalog_row(14).name.len() == 5);
            assert(catalog_row(15).name.len() == 6);
            assert(catalog_row(16).name.len() == 7);
            assert(catalog_row(17).name[0] == 'n');
            assert(catalog_row(18).name.len() == 7);
            assert(catalog_row(19).name[0] == 'l');
            assert(catalog_row(20).name.len() == 1);
            assert(catalog_row(21).name.len() == 4);
            assert(catalog_row(22).name.len() == 5);
            assert(catalog_row(23).name.len() == 5);
            assert(catalog_row(24).name.len() == 4);
        }
        if i == 5 {
            assert(catalog_row(5).name.len() == 4);
            assert(catalog_row(5).name[0] == 'd');
            assert(catalog_row(6).name[0] == 'r');
            assert(catalog_row(7).name.len() == 3);
            assert(catalog_row(8).name[1] == 'a');
            assert(catalog_row(9).name.len() == 3);
            assert(catalog_row(10).name.len() == 5);
            assert(catalog_row(11).name.len() == 5);
            assert(catalog_row(12).name.len() == 6);
            assert(catalog_row(13).name.len() == 6);
            assert(catalog_row(14).name.len() == 5);
            assert(catalog_row(15).name.len() == 6);
            assert(catalog_row(16).name.len() == 7);
            assert(catalog_row(17).name.len() == 3);
            assert(catalog_row(18).name.len() == 7);
            assert(catalog_row(19).name.len() == 3);
            assert(catalog_row(20).name.len() == 1);
            assert(catalog_row(21).name[0] == 'p');
            assert(catalog_row(22).name.len() == 5);
            assert(catalog_row(23).name.len() == 5);
            assert(catalog_row(24).name[0] == 'm');
        }
        if i == 6 {
            assert(catalog_row(6).name.len() == 4);
            assert(catalog_row(6).name[0] == 'r');
            assert(catalog_row(7).name.len() == 3);
            assert(catalog_row(8).name[0] == 'd');
            assert(catalog_row(9).name.len() == 3);
            assert(catalog_row(10).name.len() == 5);
            assert(catalog_row(11).name.len() == 5);
            assert(catalog_row(12).name.len() == 6);
            assert(catalog_row(13).name.len() == 6);
            assert(catalog_row(14).name.len() == 5);
            assert(catalog_row(15).name.len() == 6);
            assert(catalog_row(16).name.len() == 7);
            assert(catalog_row(17).name.len() == 3);
            assert(catalog_row(18).name.len() == 7);
            assert(catalog_row(19).name.len() == 3);
            assert(catalog_row(20).name.len() == 1);
            assert(catalog_row(21).name[0] == 'p');
            assert(catalog_row(22).name.len() == 5);
            assert(catalog_row(23).name.len() == 5);
            assert(catalog_row(24).name[0] == 'm');
        }
        if i == 7 {
            assert(catalog_row(7).name.len() == 3);
            assert(catalog_row(7).name[0] == 'p');
            assert(catalog_row(8).name.len() == 4);
            assert(catalog_row(9).name[0] == 'z');
            assert(catalog_row(10).name.len() == 5);
            assert(catalog_row(11).name.len() == 5);
            assert(catalog_row(12).name.len() == 6);
            assert(catalog_row(13).name.len() == 6);
            assert(catalog_row(14).name.len() == 5);
            assert(catalog_row(15).name.len() == 6);
            assert(catalog_row(16).name.len() == 7);
            assert(catalog_row(17).name[0] == 'n');
            assert(catalog_row(18).name.len() == 7);
            assert(catalog_row(19).name[0] == 'l');
            assert(catalog_row(20).name.len() == 1);
            assert(catalog_row(21).name.len() == 4);
            assert(catalog_row(22).name.len() == 5);
            assert(catalog_row(23).name.len() == 5);
            assert(catalog_row(24).name.len() == 4);
        }
        if i == 8 {
            assert(catalog_row(8).name.len() == 4);
            assert(catalog_row(8).name[0] == 'd');
            assert(catalog_row(9).name.len() == 3);
            assert(catalog_row(10).name.len() == 5);
            assert(catalog_row(11).name.len() == 5);
            assert(catalog_row(12).name.len() == 6);
            assert(catalog_row(13).name.len() == 6);
            assert(catalog_row(14).name.len() == 5);
            assert(catalog_row(15).name.len() == 6);
            assert(catalog_row(16).name.len() == 7);
            assert(catalog_row(17).name.len() == 3);
            assert(catalog_row(18).name.len() == 7);
            assert(catalog_row(19).name.len() == 3);
            assert(catalog_row(20).name.len() == 1);
            assert(catalog_row(21).name[0] == 'p');
            assert(catalog_row(22).name.len() == 5);
            assert(catalog_row(23).name.len() == 5);
            assert(catalog_row(24).name[0] == 'm');
        }
        if i == 9 {
            assert(catalog_row(9).name.len() == 3);
            assert(catalog_row(9).name[0] == 'z');
            assert(catalog_row(10).name.len() == 5);
            assert(catalog_row(11).name.len() == 5);
            assert(catalog_row(12).name.len() == 6);
            assert(catalog_row(13).name.len() == 6);
            assert(catalog_row(14).name.len() == 5);
            assert(catalog_row(15).name.len() == 6);
            assert(catalog_row(16).name.len() == 7);
            assert(catalog_row(17).name[0] == 'n');
            assert(catalog_row(18).name.len() == 7);
            assert(catalog_row(19).name[0] == 'l');
            assert(catalog_row(20).name.len() == 1);
            assert(catalog_row(21).name.len() == 4);
            assert(catalog_row(22).name.len() == 5);
            assert(catalog_row(23).name.len() == 5);
            assert(catalog_row(24).name.len() == 4);
        }
        if i == 10 {
            assert(catalog_row(10).name.len() == 5);
            assert(catalog_row(10).name[0] == 'c');
            assert(catalog_row(11).name[0] == 'm');
            assert(catalog_row(12).name.len() == 6);
            assert(catalog_row(13).name.len() == 6);
            assert(catalog_row(14).name[0] == 's');
            assert(catalog_row(15).name.len() == 6);
            assert(catalog_row(16).name.len() == 7);
            assert(catalog_row(17).name.len() == 3);
            assert(catalog_row(18).name.len() == 7);
            assert(catalog_row(19).name.len() == 3);
            assert(catalog_row(20).name.len() == 1);
            assert(catalog_row(21).name.len() == 4);
            assert(catalog_row(22).name[0] == 's');
            assert(catalog_row(23).name[0] == 'o');
            assert(catalog_row(24).name.len() == 4);
        }
        if i == 11 {
            assert(catalog_row(11).name.len() == 5);
            assert(catalog_row(11).name[0] == 'm');
            assert(catalog_row(12).name.len() == 6);
            assert(catalog_row(13).name.len() == 6);
            assert(catalog_row(14).name[0] == 's');
            assert(catalog_row(15).name.len() == 6);
            assert(catalog_row(16).name.len() == 7);
            assert(catalog_row(17).name.len() == 3);
            assert(catalog_row(18).name.len() == 7);
            assert(catalog_row(19).name.len() == 3);
            assert(catalog_row(20).name.len() == 1);
            assert(catalog_row(21).name.len() == 4);
            assert(catalog_row(22).name[0] == 's');
            assert(catalog_row(23).name[0] == 'o');
            assert(catalog_row(24).name.len() == 4);
        }
        if i == 12 {
            assert(catalog_row(12).name.len() == 6);
            assert(catalog_row(12).name[0] == 'g');
            assert(catalog_row(13).name[0] == 'd');
            assert(catalog_row(14).name.len() == 5);
            assert(catalog_row(15).name[0] == 'e');
            assert(catalog_row(16).name.len() == 7);
            assert(catalog_row(17).name.len() == 3);
            assert(catalog_row(18).name.len() == 7);
            assert(catalog_row(19).name.len() == 3);
            assert(catalog_row(20).name.len() == 1);
            assert(catalog_row(21).name.len() == 4);
            assert(catalog_row(22).name.len() == 5);
            assert(catalog_row(23).name.len() == 5);
            assert(catalog_row(24).name.len() == 4);
        }
        if i == 13 {
            assert(catalog_row(13).name.len() == 6);
            assert(catalog_row(13).name[0] == 'd');
            assert(catalog_row(14).name.len() == 5);
            assert(catalog_row(15).name[0] == 'e');
            assert(catalog_row(16).name.len() == 7);
            assert(catalog_row(17).name.len() == 3);
            assert(catalog_row(18).name.len() == 7);
            assert(catalog_row(19).name.len() == 3);
            assert(catalog_row(20).name.len() == 1);
            assert(catalog_row(21).name.len() == 4);
            assert(catalog_row(22).name.len() == 5);
            assert(catalog_row(23).name.len() == 5);
            assert(catalog_row(24).name.len() == 4);
        }
        if i == 14 {
            assert(catalog_row(14).name.len() == 5);
            assert(catalog_row(14).name[0] == 's');
            assert(catalog_row(15).name.len() == 6);
            assert(catalog_row(16).name.len() == 7);
            assert(catalog_row(17).name.len() == 3);
            assert(catalog_row(18).name.len() == 7);
            assert(catalog_row(19).name.len() == 3);
            assert(catalog_row(20).name.len() == 1);
            assert(catalog_row(21).name.len() == 4);
            assert(catalog_row(22).name[1] == 'c');
            assert(catalog_row(23).name[0] == 'o');
            assert(catalog_row(24).name.len() == 4);
        }
        if i == 15 {
            assert(catalog_row(15).name.len() == 6);
            assert(catalog_row(15).name[0] == 'e');
            assert(catalog_row(16).name.len() == 7);
            assert(catalog_row(17).name.len() == 3);
            assert(catalog_row(18).name.len() == 7);
            assert(catalog_row(19).name.len() == 3);
            assert(catalog_row(20).name.len() == 1);
            assert(catalog_row(21).name.len() == 4);
            assert(catalog_row(22).name.len() == 5);
            assert(catalog_row(23).name.len() == 5);
            assert(catalog_row(24).name.len() == 4);
        }
        if i == 16 {
            assert(catalog_row(16).name.len() == 7);
            assert(catalog_row(16).name[0] == 'h');
            assert(catalog_row(17).name.len() == 3);
            assert(catalog_row(18).name[0] == 'c');
            assert(catalog_row(19).name.len() == 3);
            assert(catalog_row(20).name.len() == 1);
            assert(catalog_row(21).name.len() == 4);
            assert(catalog_row(22).name.len() == 5);
            assert(catalog_row(23).name.len() == 5);
            assert(catalog_row(24).name.len() == 4);
        }
        if i == 17 {
            assert(catalog_row(17).name.len() == 3);
            assert(catalog_row(17).name[0] == 'n');
            assert(catalog_row(18).name.len() == 7);
            assert(catalog_row(19).name[0] == 'l');
            assert(catalog_row(20).name.len() == 1);
            assert(catalog_row(21).name.len() == 4);
            assert(catalog_row(22).name.len() == 5);
            assert(catalog_row(23).name.len() == 5);
            assert(catalog_row(24).name.len() == 4);
        }
        if i == 18 {
            assert(catalog_row(18).name.len() == 7);
            assert(catalog_row(18).name[0] == 'c');
            assert(catalog_row(19).name.len() == 3);
            assert(catalog_row(20).name.len() == 1);
            assert(catalog_row(21).name.len() == 4);
            assert(catalog_row(22).name.len() == 5);
            assert(catalog_row(23).name.len() == 5);
            assert(catalog_row(24).name.len() == 4);
        }
        if i == 19 {
            assert(catalog_row(19).name.len() == 3);
            assert(catalog_row(19).name[0] == 'l');
            assert(catalog_row(20).name.len() == 1);
            assert(catalog_row(21).name.len() == 4);
            assert(catalog_row(22).name.len() == 5);
            assert(catalog_row(23).name.len() == 5);
            assert(catalog_row(24).name.len() == 4);
        }
        if i == 20 {
            assert(catalog_row(20).name.len() == 1);
            assert(catalog_row(20).name[0] == 'r');
            assert(catalog_row(21).name.len() == 4);
            assert(catalog_row(22).name.len() == 5);
            assert(catalog_row(23).name.len() == 5);
            assert(catalog_row(24).name.len() == 4);
        }
        if i == 21 {
            assert(catalog_row(21).name.len() == 4);
            assert(catalog_row(21).name[0] == 'p');
            assert(catalog_row(22).name.len() == 5);
            assert(catalog_row(23).name.len() == 5);
            assert(catalog_row(24).name[0] == 'm');
        }
        if i == 22 {
            assert(catalog_row(22).name.len() == 5);
            assert(catalog_row(22).name[0] == 's');
            assert(catalog_row(23).name[0] == 'o');
            assert(catalog_row(24).name.len() == 4);
        }
        if i == 23 {
            assert(catalog_row(23).name.len() == 5);
            assert(catalog_row(23).name[0] == 'o');
            assert(catalog_row(24).name.len() == 4);
        }
        if i == 24 {
            assert(catalog_row(24).name.len() == 4);
            assert(catalog_row(24).name[0] == 'm');

        }
    }
}

/// No row lists a path both as a setup file and as a lockfile or build dir: what the
/// composer may write and what it must not are apart.
pub proof fn lemma_setup_is_not_wipe()
    ensures
        forall|i: int, a: int, b: int|
            0 <= i < CATALOG_LEN && 0 <= a < catalog_row(i).setup.len() && 0 <= b < catalog_row(i).project.len()
                ==> #[trigger] catalog_row(i).setup[a] != #[trigger] catalog_row(i).project[b],
{
    reveal_strlit(".build");
    reveal_strlit(".dart_tool");
    reveal_strlit(".gradle");
    reveal_strlit(".zig-cache");
    reveal_strlit("App.csproj");
    reveal_strlit("CMakeLists.txt");
    reveal_strlit("Cargo.lock");
    reveal_strlit("Cargo.toml");
    reveal_strlit("DESCRIPTION");
    reveal_strlit("Gemfile");
    reveal_strlit("Gemfile.lock");
    reveal_strlit("Makefile");
    reveal_strlit("Package.swift");
    reveal_strlit("__pycache__");
    reveal_strlit("_build");
    reveal_strlit("app.cabal");
    reveal_strlit("app.nimble");
    reveal_strlit("bin");
    reveal_strlit("build");
    reveal_strlit("build.gradle.kts");
    reveal_strlit("build.sbt");
    reveal_strlit("build.zig");
    reveal_strlit("build.zig.zon");
    reveal_strlit("bun.lock");
    reveal_strlit("bun.lockb");
    reveal_strlit("cabal.project.local");
    reveal_strlit("composer.json");
    reveal_strlit("composer.lock");
    reveal_strlit("cpanfile");
    reveal_strlit("cpanfile.snapshot");
    reveal_strlit("deno.json");
    reveal_strlit("deno.lock");
    reveal_strlit("deps");
    reveal_strlit("dist-newstyle");
    reveal_strlit("dune");
    reveal_strlit("dune-project");
    reveal_strlit("go.mod");
    reveal_strlit("go.sum");
    reveal_strlit("lib");
    reveal_strlit("local");
    reveal_strlit("mix.exs");
    reveal_strlit("mix.lock");
    reveal_strlit("nimbledeps");
    reveal_strlit("node_modules");
    reveal_strlit("obj");
    reveal_strlit("package-lock.json");
    reveal_strlit("package.json");
    reveal_strlit("pom.xml");
    reveal_strlit("project/target");
    reveal_strlit("pubspec.lock");
    reveal_strlit("pubspec.yaml");
    reveal_strlit("pyproject.toml");
    reveal_strlit("shard.lock");
    reveal_strlit("shard.yml");
    reveal_strlit("target");
    reveal_strlit("vendor");
    reveal_strlit("zig-out");
    assert forall|i: int, a: int, b: int|
        0 <= i < CATALOG_LEN && 0 <= a < catalog_row(i).setup.len() && 0 <= b < catalog_row(i).project.len()
            implies #[trigger] catalog_row(i).setup[a] != #[trigger] catalog_row(i).project[b] by {
        let x = catalog_row(i).setup[a];
        let y = catalog_row(i).project[b];
        if x == y {
            assert(x.len() == y.len());
            assert(x[0] == y[0]);
            assert(x.last() == y.last());
        }
    }
}

} // verus!
