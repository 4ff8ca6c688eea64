use jailconf::parse::{
    parse_block, parse_bool_param_no_value, parse_comment_c_style, parse_comment_cpp_style,
    parse_comment_shell_style, parse_input, parse_param_with_value,
};
use jailconf::{CommentStyle, JailBlock, JailComment, JailConf, JailParamBool, JailParamValue};

// Valueless boolean params
#[test]
fn test_parse_bool_param_no_value() {
    let item = "allow.mount;".into();
    let res = parse_bool_param_no_value(item);
    let jc = JailParamBool{
        name: "allow.mount".into(),
    };
    let ok = Ok(("".into(), jc));

    assert_eq!(res, ok);
}

#[test]
fn test_parse_bool_param_no_value_trailing_newline() {
    let item = "allow.mount;\n".into();
    let res = parse_bool_param_no_value(item);
    let jc = JailParamBool{
        name: "allow.mount".into(),
    };
    let ok = Ok(("".into(), jc));

    assert_eq!(res, ok);
}

#[test]
fn test_parse_bool_param_no_value_with_value_error() {
    let item = "allow.mount = true;".into();
    let res = parse_bool_param_no_value(item);

    assert!(res.is_err());
}

#[test]
fn test_parse_bool_param_multiline_a() {
    let item = "allow.mount;\npersist;".into();
    let res = parse_bool_param_no_value(item);
    let jc = JailParamBool{
        name: "allow.mount".into(),
    };
    let ok = Ok(("persist;".into(), jc));

    assert_eq!(res, ok);
}

#[test]
fn test_parse_bool_param_multiline_error() {
    let item = "allow.mount\n;".into();
    let res = parse_bool_param_no_value(item);

    assert!(res.is_err());
}

// Parameters with values
#[test]
fn test_parse_param_with_value() {
    let item = "allow.mount = true;".into();
    let res = parse_param_with_value(item);
    let jc = JailParamValue{
        name:   "allow.mount".into(),
        value:  "true".into(),
        append: false,
    };
    let ok = Ok(("".into(), jc));

    assert_eq!(res, ok);
}

#[test]
fn test_parse_param_with_quoted_value_with_space() {
    let item = "exec.stop = \"/bin/sh /etc/rc.shutdown\";".into();
    let res = parse_param_with_value(item);
    let jc = JailParamValue{
        name:  "exec.stop".into(),
        value: "/bin/sh /etc/rc.shutdown".into(),
        append: false,
    };
    let ok = Ok(("".into(), jc));

    assert_eq!(res, ok);
}

#[test]
fn test_parse_param_with_value_trailing_newline() {
    let item = "allow.mount = true;\n".into();
    let res = parse_param_with_value(item);
    let jc = JailParamValue{
        name:  "allow.mount".into(),
        value: "true".into(),
        append: false,
    };
    let ok = Ok(("", jc));

    assert_eq!(res, ok);
}

#[test]
fn test_parse_param_with_quoted_value() {
    let item = "allow.mount = \"true\";".into();
    let res = parse_param_with_value(item);
    let jc = JailParamValue{
        name:   "allow.mount".into(),
        value:  "true".into(),
        append: false,
    };
    let ok = Ok(("".into(), jc));

    assert_eq!(res, ok);
}

#[test]
fn test_parse_param_with_quoted_emoji_value() {
    let item = "smile.emoji = \"😊\";".into();
    let res = parse_param_with_value(item);
    let jc = JailParamValue{
        name:   "smile.emoji".into(),
        value:  "😊".into(),
        append: false,
    };
    let ok = Ok(("".into(), jc));

    assert_eq!(res, ok);
}

#[test]
fn test_parse_param_with_quoted_value_trailing_newline() {
    let item = "allow.mount = \"true\";\n".into();
    let res = parse_param_with_value(item);
    let jc = JailParamValue{
        name:   "allow.mount".into(),
        value:  "true".into(),
        append: false,
    };
    let ok = Ok(("".into(), jc));

    assert_eq!(res, ok);
}

#[test]
fn test_parse_param_with_quoted_value_no_spaces() {
    let item = "allow.mount=\"true\";".into();
    let res = parse_param_with_value(item);
    let jc = JailParamValue{
        name:   "allow.mount".into(),
        value:  "true".into(),
        append: false,
    };
    let ok = Ok(("".into(), jc));

    assert_eq!(res, ok);
}

// Integration testing, testing the main input parser.
#[test]
fn test_parse_input_no_blocks() {
    let input = "allow.mount;\npersist;\nallow.raw_sockets = \"1\";\nexec.stop = \"/bin/sh /etc/rc.shutdown\";\n";

    let res = parse_input(input.into());

    let jc = vec![
        JailConf::ParamBool(JailParamBool{
            name: "allow.mount".into(),
        }),
        JailConf::ParamBool(JailParamBool{
            name: "persist".into(),
        }),
        JailConf::ParamValue(JailParamValue{
            name:   "allow.raw_sockets".into(),
            value:  "1".into(),
            append: false,
        }),
        JailConf::ParamValue(JailParamValue{
            name:   "exec.stop".into(),
            value:  "/bin/sh /etc/rc.shutdown".into(),
            append: false,
        }),
    ];

    let ok = Ok(("".into(), jc));

    assert_eq!(res, ok);
}

#[test]
fn test_parse_input_block() {
    let input = "nginx {\n    host.hostname = \"nginx\";\n}\n";

    let res = parse_block(input.into());
    let jc = JailConf::Block(JailBlock{
        name: "nginx".into(),
        params: vec![
            JailConf::ParamValue(JailParamValue{
                name:   "host.hostname".into(),
                value:  "nginx".into(),
                append: false,
            }),
        ],
    });

    let ok = Ok(("", jc));
    assert_eq!(res, ok);
}

#[test]
fn test_parse_input_full_conf() {
    let input = "/*\n * Opening C style comment\n */\nallow.mount;                            // Allow mounting\npersist;                                /* Persist jail */\nallow.raw_sockets = \"1\";                # Allow raw sockets\nexec.stop = \"/bin/sh /etc/rc.shutdown\";\n\n// CPP style comment\nnginx {\n    # Shell style comment\n    host.hostname = \"nginx\";\n}\n\n# Multiple jails could be configured\njail2 {\n    persist;\n}\n";

    let res = parse_input(input.into());
    let jc = vec![
        JailConf::Comment(JailComment{
            comment: "\n * Opening C style comment\n ".into(),
            style:   CommentStyle::C,
        }),
        JailConf::ParamBool(JailParamBool{
            name: "allow.mount".into(),
        }),
        JailConf::Comment(JailComment{
            comment: " Allow mounting".into(),
            style:   CommentStyle::CPP,
        }),
        JailConf::ParamBool(JailParamBool{
            name: "persist".into(),
        }),
        JailConf::Comment(JailComment{
            comment: " Persist jail ".into(),
            style:   CommentStyle::C,
        }),
        JailConf::ParamValue(JailParamValue{
            name:   "allow.raw_sockets".into(),
            value:  "1".into(),
            append: false,
        }),
        JailConf::Comment(JailComment{
            comment: " Allow raw sockets".into(),
            style:   CommentStyle::Shell,
        }),
        JailConf::ParamValue(JailParamValue{
            name:   "exec.stop".into(),
            value:  "/bin/sh /etc/rc.shutdown".into(),
            append: false,
        }),
        JailConf::Comment(JailComment{
            comment: " CPP style comment".into(),
            style:   CommentStyle::CPP,
        }),
        JailConf::Block(JailBlock{
            name:  "nginx".into(),
            params: vec![
                JailConf::Comment(JailComment{
                    comment: " Shell style comment".into(),
                    style:   CommentStyle::Shell,
                }),
                JailConf::ParamValue(JailParamValue{
                    name:   "host.hostname".into(),
                    value:  "nginx".into(),
                    append: false,
                }),
            ],
        }),
        JailConf::Comment(JailComment{
            comment: " Multiple jails could be configured".into(),
            style:   CommentStyle::Shell,
        }),
        JailConf::Block(JailBlock{
            name:  "jail2".into(),
            params: vec![
                JailConf::ParamBool(JailParamBool{
                    name: "persist".into(),
                }),
            ],
        }),
    ];

    let ok = Ok(("".into(), jc));
    assert_eq!(res, ok);
}

#[test]
fn test_parse_block() {
    let input = "nginx {\n    host.hostname = \"nginx\";\n    path = \"/usr/jails/nginx\";\n    ip4.addr = \"lo1|127.0.1.1/32\";\n    ip6.addr += \"lo1|fd00:0:0:1::1/64\";\n    ip4.addr += \"em0|192.168.5.1/32\";\n    exec.start += \"sleep  2 \";\n    allow.raw_sockets = 0;\n    exec.clean;\n    exec.system_user = \"root\";\n    exec.jail_user = \"root\";\n    exec.start += \"/bin/sh /etc/rc\";\n    exec.stop = \"\";\n    exec.consolelog = \"/var/log/jail_nginx_console.log\";\n    mount.fstab = \"/etc/fstab.nginx\";\n    mount.devfs;\n    mount.fdescfs;\n    mount.procfs;\n    allow.mount;\n    allow.set_hostname = 0;\n    allow.sysvipc = 0;\n    enforce_statfs = \"2\";\n}\n";

    let res = parse_block(input.into());
    let jc = JailConf::Block(JailBlock{
        name:   "nginx".into(),
        params: vec![
            JailConf::ParamValue(JailParamValue{
                name:   "host.hostname".into(),
                value:  "nginx".into(),
                append: false,
            }),
            JailConf::ParamValue(JailParamValue{
                name:   "path".into(),
                value:  "/usr/jails/nginx".into(),
                append: false,
            }),
            JailConf::ParamValue(JailParamValue{
                name:   "ip4.addr".into(),
                value:  "lo1|127.0.1.1/32".into(),
                append: false,
            }),
            JailConf::ParamValue(JailParamValue{
                name:   "ip6.addr".into(),
                value:  "lo1|fd00:0:0:1::1/64".into(),
                append: true,
            }),
            JailConf::ParamValue(JailParamValue{
                name:   "ip4.addr".into(),
                value:  "em0|192.168.5.1/32".into(),
                append: true,
            }),
            JailConf::ParamValue(JailParamValue{
                name:   "exec.start".into(),
                value:  "sleep  2 ".into(),
                append: true,
            }),
            JailConf::ParamValue(JailParamValue{
                name:   "allow.raw_sockets".into(),
                value:  "0".into(),
                append: false,
            }),
            JailConf::ParamBool(JailParamBool{
                name: "exec.clean".into(),
            }),
            JailConf::ParamValue(JailParamValue{
                name:   "exec.system_user".into(),
                value:  "root".into(),
                append: false,
            }),
            JailConf::ParamValue(JailParamValue{
                name:   "exec.jail_user".into(),
                value:  "root".into(),
                append: false,
            }),
            JailConf::ParamValue(JailParamValue{
                name:   "exec.start".into(),
                value:  "/bin/sh /etc/rc".into(),
                append: true,
            }),
            JailConf::ParamValue(JailParamValue{
                name:   "exec.stop".into(),
                value:  "".into(),
                append: false,
            }),
            JailConf::ParamValue(JailParamValue{
                name:   "exec.consolelog".into(),
                value:  "/var/log/jail_nginx_console.log".into(),
                append: false,
            }),
            JailConf::ParamValue(JailParamValue{
                name:   "mount.fstab".into(),
                value:  "/etc/fstab.nginx".into(),
                append: false,
            }),
            JailConf::ParamBool(JailParamBool{
                name: "mount.devfs".into(),
            }),
            JailConf::ParamBool(JailParamBool{
                name: "mount.fdescfs".into(),
            }),
            JailConf::ParamBool(JailParamBool{
                name: "mount.procfs".into(),
            }),
            JailConf::ParamBool(JailParamBool{
                name: "allow.mount".into(),
            }),
            JailConf::ParamValue(JailParamValue{
                name:   "allow.set_hostname".into(),
                value:  "0".into(),
                append: false,
            }),
            JailConf::ParamValue(JailParamValue{
                name:   "allow.sysvipc".into(),
                value:  "0".into(),
                append: false,
            }),
            JailConf::ParamValue(JailParamValue{
                name:   "enforce_statfs".into(),
                value:  "2".into(),
                append: false,
            }),
        ],
    });

    let ok = Ok(("".into(), jc));

    assert_eq!(res, ok);
}

#[test]
fn test_parse_block_with_invalid_semicolon_is_err() {
    let input = "invalid; {\n    persist;\n}";

    let res = parse_block(input.into());
    assert!(res.is_err());
}

#[test]
fn test_parse_block_with_invalid_newline_is_err() {
    let input = "invalid\n{\n    persist;\n}";

    let res = parse_block(input.into());
    assert!(res.is_err());
}

#[test]
fn test_parse_comment_c_style() {
    let input = "/*\n * Test comment\n */\n";

    let res = parse_comment_c_style(input.into());
    let jc = JailComment{
        comment: "\n * Test comment\n ".into(),
        style:   CommentStyle::C,
    };

    let ok = Ok(("".into(), jc));

    assert_eq!(res, ok);
}

#[test]
fn test_parse_coment_cpp_style() {
    let input = "// CPP style comment\n";

    let res = parse_comment_cpp_style(input.into());
    let jc = JailComment{
        comment: " CPP style comment".into(),
        style:   CommentStyle::CPP,
    };

    let ok = Ok(("".into(), jc));

    assert_eq!(res, ok);
}

#[test]
fn test_parse_coment_shell_style() {
    let input = "# Shell style comment\n";

    let res = parse_comment_shell_style(input.into());
    let jc = JailComment{
        comment: " Shell style comment".into(),
        style:   CommentStyle::Shell,
    };

    let ok = Ok(("".into(), jc));

    assert_eq!(res, ok);
}
