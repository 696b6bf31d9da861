use pbh_core::avscript::{parse_metadata, transpile, MAX_SCRIPT_EXECUTE_MS};

#[test]
fn transpile_hash_comments_and_metadata_lines() {
    let out = transpile("## @NAME 测试\n## 普通注释\nlet x = 1;\nx").unwrap();
    assert_eq!(out, "// @NAME 测试\n// 普通注释\nlet x = 1;\nx");
}

#[test]
fn transpile_single_quoted_strings_to_double() {
    let out = transpile("return '-gp';").unwrap();
    assert_eq!(out, "return \"-gp\";");
    assert_eq!(transpile("return 'a\"b';").unwrap(), "return \"a\\\"b\";");
    assert_eq!(transpile("return \"a\\'b\";").unwrap(), "return \"a'b\";");
    assert_eq!(transpile("return 'a\\nb';").unwrap(), "return \"a\\nb\";");
}

#[test]
fn transpile_bare_assignment_becomes_let() {
    let out =
        transpile("ipAddress = peer.peerAddress.address;\nstrIp = toString(ipAddress);").unwrap();
    assert_eq!(
        out,
        "let ipAddress = peer.peerAddress.address;\nlet strIp = (ipAddress).to_string();"
    );
}

#[test]
fn transpile_bare_assignment_without_semicolons_still_becomes_let() {
    let out =
        transpile("ipAddress = peer.peerAddress.address\nstrIp = toString(ipAddress)\nstrIp")
            .unwrap();
    assert_eq!(
        out,
        "let ipAddress = peer.peerAddress.address\nlet strIp = (ipAddress).to_string()\nstrIp"
    );
}

#[test]
fn comparison_eq_is_not_treated_as_assignment() {
    let out = transpile("return x == 1;").unwrap();
    assert_eq!(out, "return x == 1;");
}

#[test]
fn transpile_nil_to_unit() {
    let out = transpile("if (x == nil) { return 1; } return 0;").unwrap();
    assert_eq!(out, "if (x == ()) { return 1; } return 0;");
}

#[test]
fn transpile_string_builtins_to_methods() {
    assert_eq!(
        transpile("string.startsWith(peerIdLowercase, \"-gp\")").unwrap(),
        "(peerIdLowercase).starts_with(\"-gp\")"
    );
    assert_eq!(
        transpile("string.indexOf(client, \"gopeed dev\") != -1").unwrap(),
        "(client).index_of(\"gopeed dev\") != -1"
    );
    assert_eq!(transpile("string.length('abc')").unwrap(), "(\"abc\").len()");
    assert_eq!(
        transpile("string.substring(s, 1, 3)").unwrap(),
        "(s).sub_string(1, (3)-(1))"
    );
}

#[test]
fn transpile_unsupported_builtins_fail_explicitly() {
    assert!(transpile("string.split(s, ',')").is_err());
    assert!(transpile("seq.size(m)").is_err());
}

fn engine() -> rhai::Engine {
    let mut engine = rhai::Engine::new();
    engine.register_fn("av_keys", |m: rhai::Array| -> rhai::Array {
        pbh_core::script::av_keys(m.len()).into_iter().map(|i| m[i].clone()).collect()
    });
    engine.register_fn("av_get", |m: rhai::Array, key: rhai::ImmutableString| -> rhai::Dynamic {
        let items: Vec<String> = m.iter().map(|d| d.to_string()).collect();
        match pbh_core::script::av_get(&items, key.as_str()) {
            Some(i) => m[i].clone(),
            None => rhai::Dynamic::UNIT,
        }
    });
    engine
}

#[test]
fn seq_map_preserves_insertion_order_unlike_rhai_map() {
    let src =
        transpile("return seq.keys(seq.map('aria2explorer','-ae','aria2','a2'));").unwrap();
    let keys: Vec<String> = engine()
        .eval::<rhai::Array>(&src)
        .unwrap()
        .iter()
        .map(|d| d.clone().into_string().unwrap())
        .collect();
    assert_eq!(keys, vec!["aria2explorer", "aria2"]);
}

#[test]
fn seq_get_returns_value_in_order() {
    let src = transpile("let t = seq.map('a','1','b','2'); return seq.get(t, 'b');").unwrap();
    assert_eq!(engine().eval::<String>(&src).unwrap(), "2");
}

#[test]
fn seq_list_becomes_array() {
    let src = transpile("return seq.list('x','y');").unwrap();
    assert_eq!(engine().eval::<rhai::Array>(&src).unwrap().len(), 2);
}

#[test]
fn end_to_end_masquerade_check_like_name_id_verify() {
    let script = r#"
let table = seq.map(
  'aria2explorer', '-ae',
  'bitcomet', '-bc',
  'aria2', 'a2'
);
for tableName in seq.keys(table) {
  if(string.startsWith(clientNameLowercase, tableName)){
      if(string.startsWith(peerIdLowercase, seq.get(table, tableName))){
          return false;
      }else{
          return 'Peer reporting: PeerId='+peerIdLowercase+', ClientName='+clientNameLowercase + ', But PBH excepted='+ seq.get(table, tableName);
      }
  }
}
return false;
"#;
    let src = transpile(script).unwrap();
    let engine = engine();
    let run = |client: &str, pid: &str| -> rhai::Dynamic {
        let mut scope = rhai::Scope::new();
        scope.push("clientNameLowercase", client.to_string());
        scope.push("peerIdLowercase", pid.to_string());
        engine
            .eval_ast_with_scope::<rhai::Dynamic>(&mut scope, &engine.compile(&src).unwrap())
            .unwrap()
    };
    assert!(run("bitcomet 2.0", "-bc0001-x").is_bool());
    let masquerade = run("aria2explorer 1.0", "-rpc27-x");
    assert_eq!(
        masquerade.into_string().unwrap(),
        "Peer reporting: PeerId=-rpc27-x, ClientName=aria2explorer 1.0, But PBH excepted=-ae"
    );
    assert!(run("xunlei 3.0", "-xl0001-x").is_bool());
}

#[test]
fn metadata_is_read_from_comment_lines() {
    let source = "## @NAME My rule\n# @CACHEABLE false\n## @VERSION 2\nreturn 1;";
    assert_eq!(parse_metadata(source), ("My rule".to_string(), false));
    assert_eq!(parse_metadata("return 1;"), (String::new(), true));
    assert_eq!(parse_metadata("## @CACHEABLE maybe"), (String::new(), true));
    assert_eq!(MAX_SCRIPT_EXECUTE_MS, 1500);
}

#[test]
fn plain_source_is_unchanged() {
    assert_eq!(transpile("let x = 1 + 2; x").unwrap(), "let x = 1 + 2; x");
    assert_eq!(transpile("").unwrap(), "");
    assert_eq!(transpile("/* # ' */ 1").unwrap(), "/* # ' */ 1");
}

#[test]
fn unclosed_text_and_brackets_are_errors() {
    assert!(transpile("return 'abc").is_err());
    assert!(transpile("isBlank(x").is_err());
    assert!(transpile("isBlank()").is_err());
    assert!(transpile("isBlank(a, b)").is_err());
    assert_eq!(transpile("isNotBlank(a)").unwrap(), "is_not_blank(a)");
    assert_eq!(transpile("double(a)/long(b)").unwrap(), "av_double(a)/av_long(b)");
}

#[test]
fn conditionals_and_matches_are_refused() {
    assert!(transpile("a ? 1 : 2").unwrap_err().contains("三元"));
    assert!(transpile("return x > 1 ? 'a' : 'b';").is_err());
    assert!(transpile("name =~ /ab/").unwrap_err().contains("正则"));
    assert!(transpile("toString(x) =~ /ab/").is_err());
    assert!(transpile("isBlank(a ? b : c)").is_err());
    assert!(transpile("a ?? b ? c : d").is_err());
    assert!(transpile("a ?").is_err());
    for source in ["peer.ip ?? 'x'", "a?.b", "a ?? b ?? c", "if (a.b == 1) { seq } else { x1 }"] {
        let expected = source.replace('\'', "\"");
        assert_eq!(transpile(source).unwrap(), expected);
    }
    assert_eq!(transpile("'a ? b =~ c'").unwrap(), "\"a ? b =~ c\"");
    assert_eq!(transpile("# why? =~").unwrap(), "// why? =~");
    assert_eq!(transpile("/* ? =~ */ 1 == 2").unwrap(), "/* ? =~ */ 1 == 2");
}
