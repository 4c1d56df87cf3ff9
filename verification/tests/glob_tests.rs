use editcore::glob::glob_match;

#[test]
fn test_glob_match() {
    let tests = [
        ("", "", true),
        ("x", "", false),
        ("", "x", false),
        ("abc", "abc", true),
        ("*", "abc", true),
        ("*c", "abc", true),
        ("*b", "abc", false),
        ("a*", "abc", true),
        ("b*", "abc", false),
        ("a*", "a", true),
        ("*a", "a", true),
        ("a*b*c*d*e*", "axbxcxdxe", true),
        ("a*b*c*d*e*", "axbxcxdxexxx", true),
        ("*x", "xxx", true),
        ("a*", "ab/c", false),
        ("a*b", "a/b", false),
        ("a*/b", "abc/b", true),
        ("a*/b", "a/c/b", false),
        ("a*b*c*d*e*/f", "axbxcxdxe/f", true),
        ("a*b*c*d*e*/f", "axbxcxdxexxx/f", true),
        ("a*b*c*d*e*/f", "axbxcxdxe/xxx/f", false),
        ("a*b*c*d*e*/f", "axbxcxdxexxx/fff", false),
        ("*", "", true),
        ("**", "", true),
        ("a**", "a", true),
        ("**a", "a", true),
        ("**", "abc", true),
        ("**", "foo/baz/bar", true),
        ("**c", "abc", true),
        ("**b", "abc", false),
        ("a**c", "ac", true),
        ("a**c", "abc", true),
        ("a**c", "abd", false),
        ("a**d", "abc", false),
        ("a**c", "a/bc", true),
        ("a**c", "ab/c", true),
        ("a**c", "a/b/c", true),
        ("a/**c", "ac", false),
        ("a/**c", "a/c", true),
        ("a/**c", "b/c", false),
        ("a/**c", "a/d", false),
        ("a/**c", "a/b/c", true),
        ("a/**c", "a/b/d", false),
        ("a/**c", "d/b/c", false),
        ("a**/c", "ac", false),
        ("a**/c", "a/c", true),
        ("a**/c", "b/c", false),
        ("a**/c", "a/d", false),
        ("a**/c", "a/b/c", true),
        ("a**/c", "a/b/d", false),
        ("a**/c", "d/b/c", false),
        ("a/**/c", "ac", false),
        ("a/**/c", "a/c", true),
        ("a/**/c", "b/c", false),
        ("a/**/c", "a/d", false),
        ("a/**/c", "a/b/c", true),
        ("a/**/c", "a/b/d", false),
        ("a/**/c", "d/b/c", false),
        ("a*b**c", "abc", true),
        ("a*b**c", "aXbYc", true),
        ("a*b**c", "aXb/Yc", true),
        ("a*b**c", "aXbY/Yc", true),
        ("a*b**c", "aXb/Y/c", true),
        ("a*b**c", "a/XbYc", false),
        ("a*b**c", "aX/XbYc", false),
        ("a*b**c", "a/X/bYc", false),
        ("a**b*c", "abc", true),
        ("a**b*c", "aXbYc", true),
        ("a**b*c", "aXb/Yc", false),
        ("a**b*c", "aXbY/Yc", false),
        ("a**b*c", "aXb/Y/c", false),
        ("a**b*c", "a/XbYc", true),
        ("a**b*c", "aX/XbYc", true),
        ("a**b*c", "a/X/bYc", true),
        ("a**b**c", "abc", true),
        ("a**b**c", "aXbYc", true),
        ("a**b**c", "aXb/Yc", true),
        ("a**b**c", "aXbY/Yc", true),
        ("a**b**c", "aXb/Y/c", true),
        ("a**b**c", "aXbYc", true),
        ("a**b**c", "a/XbYc", true),
        ("a**b**c", "aX/XbYc", true),
        ("a**b**c", "a/X/bYc", true),
        ("*.txt", "file.TXT", true),
        ("**/*.rs", "dir/file.RS", true),
        ("**/*.rs", "foo.rs", true),
        ("**/*.rs", "dir/foo.rs", true),
        ("**/*.rs", "dir/sub/foo.rs", true),
        ("**/*.rs", "foo.txt", false),
        ("**/*.rs", "dir/foo.txt", false),
        ("**/Cargo.toml", "Cargo.toml", true),
        ("**/Cargo.toml", "dir/Cargo.toml", true),
        ("**/Cargo.toml", "dir/sub/Cargo.toml", true),
        ("**/Cargo.toml", "Cargo.lock", false),
        ("**/Cargo.toml", "dir/Cargo.lock", false),
    ];

    for (pattern, name, expected) in tests {
        let result = glob_match(pattern, name);
        assert_eq!(
            result, expected,
            "test case ({:?}, {:?}, {}) failed, got {}",
            pattern, name, expected, result
        );
    }
}
