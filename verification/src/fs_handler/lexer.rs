use vstd::prelude::*;
use crate::commun_utils::scan::{FileScanner, ScanBytesSubject};
use crate::third_party::strings_view;

verus! {

/// Copies a list of texts.
pub fn strings_from(lits: &[&str]) -> (r: Vec<String>)
    ensures
        strings_view(r@) == lits@.map_values(|s: &str| s@),
{
    let mut r: Vec<String> = Vec::new();
    let mut i: usize = 0;
    while i < lits.len()
        invariant
            i <= lits@.len(),
            strings_view(r@) == lits@.subrange(0, i as int).map_values(|s: &str| s@),
        decreases lits@.len() - i,
    {
        let ghost before = strings_view(r@);
        let s = lits[i].to_owned();
        assert(s@ == lits@[i as int]@);
        r.push(s);
        assert(strings_view(r@) == before.push(s@));
        assert(lits@.subrange(0, i + 1).map_values(|s: &str| s@)
            == lits@.subrange(0, i as int).map_values(|s: &str| s@).push(lits@[i as int]@));
        i += 1;
        assert(strings_view(r@) =~= lits@.subrange(0, i as int).map_values(|s: &str| s@));
    }
    assert(lits@.subrange(0, lits@.len() as int) == lits@);
    r
}

/// What is suspicious in scripts and WebAssembly modules.
#[derive(Debug, Clone, Copy, PartialEq, Eq, Structural)]
pub enum MalwareWarnRaiseApp {
    NetworkAccess,
    Exflitration,
    SysInfomationCollect,
    WebGLInfomationCollect,
    NavigatorRessourceAccess,
    WasmLoading,
    ObfuscationPacking,
    ObfuscationEncodage,
    ObfuscationSensitiveHex,
    Encoding,
    EnvScrapping,
    InternalScanning,
    SupectKeyWord,
}

impl FileScanner for MalwareWarnRaiseApp {
    open spec fn spec_warns() -> Seq<Seq<char>> {
        seq![
            "NetworkAccess"@,
            "Exflitration"@,
            "SysInfomationCollect"@,
            "WebGLInfomationCollect"@,
            "NavigatorRessourceAccess"@,
            "WasmLoading"@,
            "ObfuscationPacking"@,
            "ObfuscationEncodage"@,
            "ObfuscationSensitiveHex"@,
            "Encoding"@,
            "EnvScrapping"@,
            "InternalScanning"@,
            "SupectKeyWord"@,
        ]
    }

    open spec fn spec_patterns() -> Seq<Seq<char>> {
        seq![
            r#"fetch|XMLHttpRequest|axios|WebSocket|EventSource|navigator\.sendBeacon|postMessage|onmessage|addEventListener[(].message.[)]"#@,
            r#"https?://|wss?://|/?api/?|/?upload/?|/?[A-z0-9\._]\w+\.php/?|/?beacon/?|/?socket/?|callback=|token=|session=|jwt"#@,
            r#"navigator\.(userAgent|platform|hardwareConcurrency|language|plugins)|screen\.(width|height)|devicePixelRatio|Intl\.DateTimeFormat[(][)]\.resolvedOptions[(][)]\.timeZone"#@,
            r#"canvas\.toDataURL|getContext[(].webgl.[)]|getParameter|WEBGL_debug_renderer_info|UNMASKED_VENDOR_WEBGL|UNMASKED_RENDERER_WEBGL"#@,
            r#"document\.cookie|(local|session)Storage|indexedDB|caches\.keys|FileReader|Blob"#@,
            r#"WebAssembly\.(instantiate(Streaming)?|compile|Module|Memory|Table)"#@,
            r#"wasm_bindgen|__wbindgen|emscriptenemscripten|env\.memory|memory\.grow|importObject|exports\._"#@,
            r#"eval[(]|Function[(]|setTimeout[(](["A-z0-9]\w+|[A-z]).|setInterval[(](["A-z0-9]\w+|[A-z]).|unescape[(]|(b|a)to(a|b)|decodeURIComponent[(]|String\.fromCharCode[(]|charCodeAt[(]"#@,
            r#"(0x|\\x|\\u00|(\["..."\])+|!(!|[+])\[\])"#@,
            r#"crypto\.subtle|digest|SHA-1|SHA-256|MD5|AES|HMAC|PBKDF2|randomUUID|getRandomValues"#@,
            r#"typeof\s+(window|global)|process\.(env|platform)|require[(].(node:)?(os|fs|child_process).[)]|import ([A-z]|[A-z0-9_\.]\w+) from .(node:)?(os|fs|child_process).|Deno\.env"#@,
            r#"/?192\.168\.|10\.0\.|172\.16\.|localhost|127\.0\.0\.1|::1|intranet|admin|config|status|health"#@,
            r#"cmd|shell|exec|spawn|download|encrypt|decrypt|miner|wallet"#@,
        ]
    }

    fn scanner() -> (r: Result<ScanBytesSubject, regex::Error>) {
        let variants = strings_from(&[
            "NetworkAccess",
            "Exflitration",
            "SysInfomationCollect",
            "WebGLInfomationCollect",
            "NavigatorRessourceAccess",
            "WasmLoading",
            "ObfuscationPacking",
            "ObfuscationEncodage",
            "ObfuscationSensitiveHex",
            "Encoding",
            "EnvScrapping",
            "InternalScanning",
            "SupectKeyWord",
        ]);
        let regexes = strings_from(&[
            r#"fetch|XMLHttpRequest|axios|WebSocket|EventSource|navigator\.sendBeacon|postMessage|onmessage|addEventListener[(].message.[)]"#,
            r#"https?://|wss?://|/?api/?|/?upload/?|/?[A-z0-9\._]\w+\.php/?|/?beacon/?|/?socket/?|callback=|token=|session=|jwt"#,
            r#"navigator\.(userAgent|platform|hardwareConcurrency|language|plugins)|screen\.(width|height)|devicePixelRatio|Intl\.DateTimeFormat[(][)]\.resolvedOptions[(][)]\.timeZone"#,
            r#"canvas\.toDataURL|getContext[(].webgl.[)]|getParameter|WEBGL_debug_renderer_info|UNMASKED_VENDOR_WEBGL|UNMASKED_RENDERER_WEBGL"#,
            r#"document\.cookie|(local|session)Storage|indexedDB|caches\.keys|FileReader|Blob"#,
            r#"WebAssembly\.(instantiate(Streaming)?|compile|Module|Memory|Table)"#,
            r#"wasm_bindgen|__wbindgen|emscriptenemscripten|env\.memory|memory\.grow|importObject|exports\._"#,
            r#"eval[(]|Function[(]|setTimeout[(](["A-z0-9]\w+|[A-z]).|setInterval[(](["A-z0-9]\w+|[A-z]).|unescape[(]|(b|a)to(a|b)|decodeURIComponent[(]|String\.fromCharCode[(]|charCodeAt[(]"#,
            r#"(0x|\\x|\\u00|(\["..."\])+|!(!|[+])\[\])"#,
            r#"crypto\.subtle|digest|SHA-1|SHA-256|MD5|AES|HMAC|PBKDF2|randomUUID|getRandomValues"#,
            r#"typeof\s+(window|global)|process\.(env|platform)|require[(].(node:)?(os|fs|child_process).[)]|import ([A-z]|[A-z0-9_\.]\w+) from .(node:)?(os|fs|child_process).|Deno\.env"#,
            r#"/?192\.168\.|10\.0\.|172\.16\.|localhost|127\.0\.0\.1|::1|intranet|admin|config|status|health"#,
            r#"cmd|shell|exec|spawn|download|encrypt|decrypt|miner|wallet"#,
        ]);
        assert(strings_view(variants@) =~= Self::spec_warns());
        assert(strings_view(regexes@) =~= Self::spec_patterns());
        ScanBytesSubject::new(&variants, &regexes)
    }
}

/// Reading `document.cookie` raises the warning of access to the
/// navigator's resources: the fifth application pattern, named
/// `NavigatorRessourceAccess`, is an alternation whose first alternative is
/// `document\.cookie`, the others being storage, `indexedDB`, cache keys,
/// file readers and blobs.
pub proof fn lemma_cookie_access_pattern()
    ensures
        MalwareWarnRaiseApp::spec_patterns().len() == MalwareWarnRaiseApp::spec_warns().len(),
        MalwareWarnRaiseApp::spec_warns()[4] == seq!['N', 'a', 'v', 'i', 'g', 'a', 't', 'o', 'r', 'R', 'e', 's', 's', 'o', 'u', 'r', 'c', 'e', 'A', 'c', 'c', 'e', 's', 's'],
        MalwareWarnRaiseApp::spec_patterns()[4] == seq!['d', 'o', 'c', 'u', 'm', 'e', 'n', 't', '\\', '.', 'c', 'o', 'o', 'k', 'i', 'e', '|'] + seq!['(', 'l', 'o', 'c', 'a', 'l', '|', 's', 'e', 's', 's', 'i', 'o', 'n', ')', 'S', 't', 'o', 'r', 'a', 'g', 'e', '|', 'i', 'n', 'd', 'e', 'x', 'e', 'd', 'D', 'B', '|', 'c', 'a', 'c', 'h', 'e', 's', '\\', '.', 'k', 'e', 'y', 's', '|', 'F', 'i', 'l', 'e', 'R', 'e', 'a', 'd', 'e', 'r', '|', 'B', 'l', 'o', 'b'],
{
    reveal_strlit("NavigatorRessourceAccess");
    reveal_strlit(r#"document\.cookie|(local|session)Storage|indexedDB|caches\.keys|FileReader|Blob"#);
    assert(MalwareWarnRaiseApp::spec_warns()[4] =~= seq!['N', 'a', 'v', 'i', 'g', 'a', 't', 'o', 'r', 'R', 'e', 's', 's', 'o', 'u', 'r', 'c', 'e', 'A', 'c', 'c', 'e', 's', 's']);
    assert(MalwareWarnRaiseApp::spec_patterns()[4] =~= seq!['d', 'o', 'c', 'u', 'm', 'e', 'n', 't', '\\', '.', 'c', 'o', 'o', 'k', 'i', 'e', '|'] + seq!['(', 'l', 'o', 'c', 'a', 'l', '|', 's', 'e', 's', 's', 'i', 'o', 'n', ')', 'S', 't', 'o', 'r', 'a', 'g', 'e', '|', 'i', 'n', 'd', 'e', 'x', 'e', 'd', 'D', 'B', '|', 'c', 'a', 'c', 'h', 'e', 's', '\\', '.', 'k', 'e', 'y', 's', '|', 'F', 'i', 'l', 'e', 'R', 'e', 'a', 'd', 'e', 'r', '|', 'B', 'l', 'o', 'b']);
}

/// What is suspicious in image files.
#[derive(Debug, Clone, Copy, PartialEq, Eq, Structural)]
pub enum MalwareWarnRaiseImg {
    ASCII,
    ASCIIShell,
    ScriptWeb,
    Token,
    ApiWindow,
    Payload,
    Base64,
    Hexadecimal,
    Javascript,
    Php,
    Python,
    ByPassParser,
    ShellCodeAccess,
    AbnormalNumberOfNull,
    MagicByte,
    SuspectGifExt,
}

impl FileScanner for MalwareWarnRaiseImg {
    open spec fn spec_warns() -> Seq<Seq<char>> {
        seq![
            "ASCII"@,
            "ASCIIShell"@,
            "ScriptWeb"@,
            "Token"@,
            "ApiWindow"@,
            "Payload"@,
            "Base64"@,
            "Hexadecimal"@,
            "Javascript"@,
            "Php"@,
            "Python"@,
            "ByPassParser"@,
            "ShellCodeAccess"@,
            "AbnormalNumberOfNull"@,
            "MagicByte"@,
            "SuspectGifExt"@,
        ]
    }

    open spec fn spec_patterns() -> Seq<Seq<char>> {
        seq![
            r#";|\{|\}|\[|\]|\(|\)|<|>|\$|\%|\^|\&|\*|\=|\\|\/|`|\~"#@,
            r#";|&&|\|\||>>?|<<?|\$[(][)]|\`"#@,
            r#"<\?php|<script|</script|<\?=|\?>"#@,
            r#"cmd\.exe|powershell|bash|sh|wget|curl|nc|netcat|whoami|chmod"#@,
            r#"CreateProcess|VirtualAlloc|WriteProcessMemory|LoadLibrary|GetProcAddress|WinExec"#@,
            r#"shellcode|payload|backdoor|reverse|connect|inject|exploit"#@,
            r#"[A-Za-z0-9+/]{100,}="#@,
            r#"[0-9A-Fa-f]{200,}"#@,
            r#"eval[(]|atob[(]|document\.|window\.|function[(]"#@,
            r#"<\?php|eval[(]|base64\_decode[(]"#@,
            r#"import\s+os|import\s+subprocess|exec[(]"#@,
            r#"[A-z0-9]\w+(\.(php|(c|m)?js|exe|so|rlib))?(\\x00)+\.(jpe?g|png)"#@,
            r#"(\\x31\\xC0\\x50\\x68|\\x2f\\x62\\x69\\x6e)(\\x2F){1,2}(\\x73\\x68|\\x62\\x61\\x73\\x68)\\x00"#@,
            r#"(\\x00){30,}"#@,
            r#"MZ|PE|ELF|PK"#@,
            r#"(?i)(Comment\sExtension|Application\sExtension)"#@,
        ]
    }

    fn scanner() -> (r: Result<ScanBytesSubject, regex::Error>) {
        let variants = strings_from(&[
            "ASCII",
            "ASCIIShell",
            "ScriptWeb",
            "Token",
            "ApiWindow",
            "Payload",
            "Base64",
            "Hexadecimal",
            "Javascript",
            "Php",
            "Python",
            "ByPassParser",
            "ShellCodeAccess",
            "AbnormalNumberOfNull",
            "MagicByte",
            "SuspectGifExt",
        ]);
        let regexes = strings_from(&[
            r#";|\{|\}|\[|\]|\(|\)|<|>|\$|\%|\^|\&|\*|\=|\\|\/|`|\~"#,
            r#";|&&|\|\||>>?|<<?|\$[(][)]|\`"#,
            r#"<\?php|<script|</script|<\?=|\?>"#,
            r#"cmd\.exe|powershell|bash|sh|wget|curl|nc|netcat|whoami|chmod"#,
            r#"CreateProcess|VirtualAlloc|WriteProcessMemory|LoadLibrary|GetProcAddress|WinExec"#,
            r#"shellcode|payload|backdoor|reverse|connect|inject|exploit"#,
            r#"[A-Za-z0-9+/]{100,}="#,
            r#"[0-9A-Fa-f]{200,}"#,
            r#"eval[(]|atob[(]|document\.|window\.|function[(]"#,
            r#"<\?php|eval[(]|base64\_decode[(]"#,
            r#"import\s+os|import\s+subprocess|exec[(]"#,
            r#"[A-z0-9]\w+(\.(php|(c|m)?js|exe|so|rlib))?(\\x00)+\.(jpe?g|png)"#,
            r#"(\\x31\\xC0\\x50\\x68|\\x2f\\x62\\x69\\x6e)(\\x2F){1,2}(\\x73\\x68|\\x62\\x61\\x73\\x68)\\x00"#,
            r#"(\\x00){30,}"#,
            r#"MZ|PE|ELF|PK"#,
            r#"(?i)(Comment\sExtension|Application\sExtension)"#,
        ]);
        assert(strings_view(variants@) =~= Self::spec_warns());
        assert(strings_view(regexes@) =~= Self::spec_patterns());
        ScanBytesSubject::new(&variants, &regexes)
    }
}

} // verus!
