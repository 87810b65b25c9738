use sentinai::ci_generator::{detect_project_type, generate_ci_yaml, ProjectType};

#[test]
fn test_detect_project_type() {
    let pt = detect_project_type("https://github.com/foo/bar");
    assert!(matches!(pt, ProjectType::Rust));
}

#[test]
fn test_generate_ci_yaml_rust() {
    let yaml = generate_ci_yaml(ProjectType::Rust);
    assert_eq!(yaml, "name: Sentinai Rust CI\n\non:\n  push:\n    branches: [ \"main\" ]\n  pull_request:\n    branches: [ \"main\" ]\n\nenv:\n  CARGO_TERM_COLOR: always\n\njobs:\n  build:\n    runs-on: ubuntu-latest\n    steps:\n    - uses: actions/checkout@v3\n    - name: Ensure strict Rust warnings\n      run: cargo check --all-targets --all-features\n      env:\n        RUSTFLAGS: \"-D warnings\"\n    - name: Run tests\n      run: cargo test\n    - name: Security audit\n      run: cargo audit");
}

#[test]
fn test_generate_ci_yaml_node() {
    let yaml = generate_ci_yaml(ProjectType::Node);
    assert_eq!(yaml, "name: Sentinai Node CI\n\non:\n  push:\n    branches: [ \"main\" ]\n\njobs:\n  build:\n    runs-on: ubuntu-latest\n    steps:\n    - uses: actions/checkout@v3\n    - uses: actions/setup-node@v3\n      with:\n        node-version: 18\n    - run: npm install\n    - run: npm test\n    - run: npm audit");
}

#[test]
fn test_generate_ci_yaml_python() {
    let yaml = generate_ci_yaml(ProjectType::Python);
    assert_eq!(yaml, "name: Sentinai Python CI\n\non:\n  push:\n    branches: [ \"main\" ]\n\njobs:\n  build:\n    runs-on: ubuntu-latest\n    steps:\n    - uses: actions/checkout@v3\n    - uses: actions/setup-python@v4\n      with:\n        python-version: '3.10'\n    - run: pip install -r requirements.txt\n    - run: pytest\n    - run: safety check");
}

#[test]
fn test_generate_ci_yaml_unknown() {
    let yaml = generate_ci_yaml(ProjectType::Unknown);
    assert_eq!(yaml, "# Fallback Pipeline\nname: Generic\njobs:\n  build:\n    runs-on: ubuntu-latest\n    steps:\n    - run: echo 'Unknown project'");
}
