use vstd::prelude::*;
use vstd::string::StringExecFns;

verus! {

pub const RUST: &'static str = "name: Sentinai Rust CI\n\non:\n  push:\n    branches: [ \"main\" ]\n  pull_request:\n    branches: [ \"main\" ]\n\nenv:\n  CARGO_TERM_COLOR: always\n\njobs:\n  build:\n    runs-on: ubuntu-latest\n    steps:\n    - uses: actions/checkout@v3\n    - name: Ensure strict Rust warnings\n      run: cargo check --all-targets --all-features\n      env:\n        RUSTFLAGS: \"-D warnings\"\n    - name: Run tests\n      run: cargo test\n    - name: Security audit\n      run: cargo audit";

pub const NODE: &'static str = "name: Sentinai Node CI\n\non:\n  push:\n    branches: [ \"main\" ]\n\njobs:\n  build:\n    runs-on: ubuntu-latest\n    steps:\n    - uses: actions/checkout@v3\n    - uses: actions/setup-node@v3\n      with:\n        node-version: 18\n    - run: npm install\n    - run: npm test\n    - run: npm audit";

pub const PYTHON: &'static str = "name: Sentinai Python CI\n\non:\n  push:\n    branches: [ \"main\" ]\n\njobs:\n  build:\n    runs-on: ubuntu-latest\n    steps:\n    - uses: actions/checkout@v3\n    - uses: actions/setup-python@v4\n      with:\n        python-version: '3.10'\n    - run: pip install -r requirements.txt\n    - run: pytest\n    - run: safety check";

pub const UNKNOWN: &'static str = "# Fallback Pipeline\nname: Generic\njobs:\n  build:\n    runs-on: ubuntu-latest\n    steps:\n    - run: echo 'Unknown project'";


/// The language a repository is classified as.
#[derive(Debug, PartialEq, Eq, Structural)]
pub enum ProjectType {
    Rust,
    Node,
    Python,
    Unknown,
}

/// The CI template emitted for each project type.
pub open spec fn ci_yaml_spec(project_type: ProjectType) -> Seq<char> {
    match project_type {
        ProjectType::Rust => RUST@,
        ProjectType::Node => NODE@,
        ProjectType::Python => PYTHON@,
        ProjectType::Unknown => UNKNOWN@,
    }
}

/// Classify a repository. Detection is a placeholder: every repository is
/// treated as a Rust project.
pub fn detect_project_type(_repo_url: &str) -> (r: ProjectType)
    ensures
        r == ProjectType::Rust,
{
    ProjectType::Rust
}

/// The pipeline configuration generated for a project type: exactly the
/// fixed template of that language.
pub fn generate_ci_yaml(project_type: ProjectType) -> (r: String)
    ensures
        r@ == ci_yaml_spec(project_type),
{
    match project_type {
        ProjectType::Rust => String::from_str(RUST),
        ProjectType::Node => String::from_str(NODE),
        ProjectType::Python => String::from_str(PYTHON),
        ProjectType::Unknown => String::from_str(UNKNOWN),
    }
}

} // verus!
