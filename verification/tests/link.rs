use brainsick::link::{
    linker_command, Architecture, DeploymentTarget, LinkArg, OperatingSystem, Target,
};

fn render(args: &[LinkArg]) -> Vec<String> {
    args.iter()
        .map(|a| match a {
            LinkArg::Text(s) => s.clone(),
            LinkArg::OutputFile => "<out>".to_string(),
            LinkArg::PrefixedOutputFile(p) => format!("{}<out>", p),
            LinkArg::ObjectFiles => "<objs>".to_string(),
        })
        .collect()
}

fn target(is_aarch64: bool, name: &str, os: OperatingSystem) -> Target {
    Target {
        architecture: Architecture { is_aarch64, name: name.to_string() },
        operating_system: os,
    }
}

#[test]
fn macos_uses_ld64_with_the_deployment_version() {
    let t = target(
        true,
        "aarch64",
        OperatingSystem::MacOSX(Some(DeploymentTarget { major: 14, minor: 0, patch: 0 })),
    );
    let cmd = linker_command(&t).unwrap();
    assert_eq!(cmd.linker, "ld64.lld");
    assert_eq!(
        render(&cmd.args),
        vec![
            "-arch", "arm64", "-platform_version", "macos", "14.0.0", "14.0.0", "-syslibroot",
            "/Applications/Xcode.app/Contents/Developer/Platforms/MacOSX.platform/Developer/SDKs/MacOSX.sdk",
            "-lc", "-framework", "CoreFoundation", "-o", "<out>", "<objs>",
            "target/release/libstdlib.a",
        ]
    );
    let t = target(
        false,
        "x86_64",
        OperatingSystem::MacOSX(Some(DeploymentTarget { major: 10, minor: 15, patch: 7 })),
    );
    let cmd = linker_command(&t).unwrap();
    assert_eq!(render(&cmd.args)[1], "x86_64");
    assert_eq!(render(&cmd.args)[4], "10.15.7");
}

#[test]
fn linux_uses_ld_lld() {
    let cmd = linker_command(&target(false, "x86_64", OperatingSystem::Linux)).unwrap();
    assert_eq!(cmd.linker, "ld.lld");
    let args = render(&cmd.args);
    assert_eq!(&args[..4], &["-dynamic-linker", "/lib64/ld-linux-x86-64.so.2", "-o", "<out>"]);
    assert_eq!(args[4], "/lib/x86_64-linux-gnu/Scrt1.o");
    assert_eq!(args.iter().filter(|a| *a == "<objs>").count(), 1);
    assert_eq!(args.len(), 4 + 7 + 4 + 1 + 9 + 2 + 1 + 7);
    assert_eq!(args.last().unwrap(), "-lgdk_pixbuf-2.0");
    let cmd = linker_command(&target(true, "aarch64", OperatingSystem::Linux)).unwrap();
    let args = render(&cmd.args);
    assert_eq!(args[1], "/lib/ld-linux-aarch64.so.1");
    assert_eq!(args.len(), 4 + 6 + 4 + 1 + 9 + 2 + 1 + 7);
}

#[test]
fn windows_uses_lld_link_and_writes_the_output_file() {
    let cmd = linker_command(&target(false, "x86_64", OperatingSystem::Windows)).unwrap();
    assert_eq!(cmd.linker, "lld-link.exe");
    let args = render(&cmd.args);
    assert_eq!(args[0], "<objs>");
    assert_eq!(args[1], "target\\release\\stdlib.lib");
    assert_eq!(args.last().unwrap(), "/OUT:<out>");
    assert_eq!(args.iter().filter(|a| a.starts_with("/OUT:")).count(), 1);
    assert!(!args.contains(&"/OUT:hello.exe".to_string()));
    assert_eq!(args.len(), 16);
}

#[test]
fn other_targets_are_not_supported() {
    assert!(linker_command(&target(false, "x86_64", OperatingSystem::Other)).is_none());
    assert!(linker_command(&target(true, "aarch64", OperatingSystem::MacOSX(None))).is_none());
}
