use dino::bundler::{manifest_covered, run_bundle, BundleError, BundleOptions, MemoryLoader, ModuleLoader};
use dino::router::ProjectRoute;

fn fixtures() -> MemoryLoader {
    let main_ts = "import { execute } from \"./lib.ts\";\n\nasync function main() {\n  console.log(\"Executing main.ts\");\n  console.log(await execute(\"world\"));\n}\n\nexport default main;\n";
    let lib_ts = "export async function execute(name) {\n  console.log(\"Executing lib.ts\");\n  return `Hello ${name}!`;\n}\n";
    MemoryLoader {
        files: vec![
            ("fixtures/main.ts".to_string(), main_ts.to_string()),
            ("fixtures/lib.ts".to_string(), lib_ts.to_string()),
        ],
    }
}

#[test]
fn bundle_ts_should_work() {
    let loader = fixtures();
    let ret = run_bundle(&loader, "fixtures/main.ts", &Default::default()).unwrap();
    assert_eq!(ret, "(function(){async function execute(name){console.log(\"Executing lib.ts\");return`Hello ${name}!`;}async function main(){console.log(\"Executing main.ts\");console.log(await execute(\"world\"));}return{default:main};})();");
}

#[test]
fn bundle_keeps_manifest_handlers_as_properties() {
    let loader = MemoryLoader {
        files: vec![(
            "app/main.ts".to_string(),
            "export function greet(req) {\n  return req;\n}\nexport function bye(req) {\n  return req;\n}\n".to_string(),
        )],
    };
    let out = run_bundle(&loader, "app/main.ts", &BundleOptions { minify: true }).unwrap();
    assert!(out.contains("greet:"));
    assert!(out.contains("bye:"));
    assert!(out.starts_with("(function(){"));
    assert!(out.ends_with("};})();"));
}

#[test]
fn cyclic_import_is_rejected() {
    let loader = MemoryLoader {
        files: vec![
            ("a.ts".to_string(), "import { b } from \"./b.ts\";\nexport const a = 1;\n".to_string()),
            ("b.ts".to_string(), "import { a } from \"./a.ts\";\nexport const b = 2;\n".to_string()),
        ],
    };
    let err = run_bundle(&loader, "a.ts", &Default::default()).unwrap_err();
    assert!(matches!(err, BundleError::CyclicImport(_)));
}

#[test]
fn missing_module_is_load_failed() {
    let loader = MemoryLoader { files: vec![] };
    let err = run_bundle(&loader, "nope.ts", &Default::default()).unwrap_err();
    assert!(matches!(err, BundleError::LoadFailed(_)));
}

#[test]
fn single_quoted_import_is_parse_failed() {
    let loader = MemoryLoader {
        files: vec![("m.ts".to_string(), "import { x } from './x.ts';\n".to_string())],
    };
    let err = run_bundle(&loader, "m.ts", &Default::default()).unwrap_err();
    assert!(matches!(err, BundleError::ParseFailed(_, _)));
}

#[test]
fn relative_specifier_resolves_against_importer_directory() {
    let loader = MemoryLoader { files: vec![] };
    let p = loader.resolve(Some("fixtures/main.ts"), "./lib.ts").unwrap();
    assert_eq!(p, "fixtures/lib.ts");
    let q = loader.resolve(None, "entry.ts").unwrap();
    assert_eq!(q, "entry.ts");
}

#[test]
fn minify_preserves_string_and_template_contents() {
    let loader = MemoryLoader {
        files: vec![(
            "m.ts".to_string(),
            "export function f() {\n  return \"a  b\" + `c  d`;\n}\n".to_string(),
        )],
    };
    let out = run_bundle(&loader, "m.ts", &Default::default()).unwrap();
    assert!(out.contains("\"a  b\""));
    assert!(out.contains("`c  d`"));
    assert!(out.contains("function f(){"));
}

#[test]
fn manifest_acceptance_checks_handler_names() {
    let routes = vec![ProjectRoute {
        method: "GET".to_string(),
        path: "/hello/:name".to_string(),
        handler: "greet".to_string(),
    }];
    let exports = vec![("greet".to_string(), "greet".to_string())];
    assert!(manifest_covered(&routes, &exports));
    let other = vec![("default".to_string(), "main".to_string())];
    assert!(!manifest_covered(&routes, &other));
}

struct RefusingLoader;

impl ModuleLoader for RefusingLoader {
    fn load(&self, _specifier: &str) -> Result<String, BundleError> {
        Ok("import { y } from \"./y.ts\";\nexport const x = 1;\n".to_string())
    }

    fn resolve(&self, base: Option<&str>, specifier: &str) -> Result<String, BundleError> {
        match base {
            None => Ok(specifier.to_string()),
            Some(b) => Err(BundleError::ResolveFailed(specifier.to_string(), b.to_string())),
        }
    }
}

#[test]
fn resolver_failures_surface_as_resolve_failed() {
    let err = run_bundle(&RefusingLoader, "m.ts", &Default::default()).unwrap_err();
    assert!(matches!(err, BundleError::ResolveFailed(s, b) if s == "./y.ts" && b == "m.ts"));
}

#[test]
fn minify_strips_comments_as_whitespace() {
    let loader = MemoryLoader {
        files: vec![(
            "m.ts".to_string(),
            "export function f() { // say hi\n  /* a\n     block */ return 1 /2;\n}\n".to_string(),
        )],
    };
    let out = run_bundle(&loader, "m.ts", &Default::default()).unwrap();
    assert!(!out.contains("say hi"));
    assert!(!out.contains("block"));
    assert!(out.contains("function f(){return 1/2;}"));
    let slashes = MemoryLoader {
        files: vec![(
            "n.ts".to_string(),
            "export function g() {\n  return \"// not a comment\";\n}\n".to_string(),
        )],
    };
    let out2 = run_bundle(&slashes, "n.ts", &Default::default()).unwrap();
    assert!(out2.contains("\"// not a comment\""));
}

#[test]
fn bundle_files_produces_the_exact_two_file_bundle() {
    let files = vec![
        (
            "fixtures/main.ts".to_string(),
            "import { execute } from \"./lib.ts\";\n\nasync function main() {\n  console.log(\"Executing main.ts\");\n  console.log(await execute(\"world\"));\n}\n\nexport default main;\n".to_string(),
        ),
        (
            "fixtures/lib.ts".to_string(),
            "export async function execute(name) {\n  console.log(\"Executing lib.ts\");\n  return `Hello ${name}!`;\n}\n".to_string(),
        ),
    ];
    let out = dino::bundler::bundle_files(&files, "fixtures/main.ts", &Default::default()).unwrap();
    assert_eq!(out, "(function(){async function execute(name){console.log(\"Executing lib.ts\");return`Hello ${name}!`;}async function main(){console.log(\"Executing main.ts\");console.log(await execute(\"world\"));}return{default:main};})();");
    // the generic walk over an in-memory loader serving the same table agrees
    let loader = MemoryLoader { files };
    assert_eq!(run_bundle(&loader, "fixtures/main.ts", &Default::default()).unwrap(), out);
}

#[test]
fn exports_of_files_reads_the_entry_exports() {
    let files = vec![(
        "app/main.ts".to_string(),
        "export function greet(req) {\n  return req;\n}\nexport default greet;\n".to_string(),
    )];
    let es = dino::bundler::exports_of_files(&files, "app/main.ts").unwrap();
    assert_eq!(
        es,
        vec![
            ("greet".to_string(), "greet".to_string()),
            ("default".to_string(), "greet".to_string()),
        ]
    );
    let missing = dino::bundler::exports_of_files(&vec![], "nope.ts").unwrap_err();
    assert!(matches!(missing, BundleError::LoadFailed(_)));
}
