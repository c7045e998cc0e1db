use std::collections::HashMap;
use tilde::desugar::tilde;
use tilde::token::{Delimiter, Token};

// A small lexer: identifiers, integer literals, punctuation, and groups.
fn lex(src: &str) -> Vec<Token> {
    let chars: Vec<char> = src.chars().collect();
    let mut stack: Vec<(Delimiter, Vec<Token>, u64)> = vec![(Delimiter::Brace, Vec::new(), 0)];
    let mut i = 0;
    while i < chars.len() {
        let c = chars[i];
        let span = i as u64;
        if c.is_whitespace() {
            i += 1;
        } else if c.is_alphabetic() || c == '_' {
            let start = i;
            while i < chars.len() && (chars[i].is_alphanumeric() || chars[i] == '_') {
                i += 1;
            }
            let text: String = chars[start..i].iter().collect();
            stack.last_mut().unwrap().1.push(Token::Ident { text, span });
        } else if c.is_ascii_digit() {
            let start = i;
            while i < chars.len() && chars[i].is_ascii_digit() {
                i += 1;
            }
            let text: String = chars[start..i].iter().collect();
            stack.last_mut().unwrap().1.push(Token::Literal { text, span });
        } else if c == '(' || c == '[' || c == '{' {
            let d = match c {
                '(' => Delimiter::Parenthesis,
                '[' => Delimiter::Bracket,
                _ => Delimiter::Brace,
            };
            stack.push((d, Vec::new(), span));
            i += 1;
        } else if c == ')' || c == ']' || c == '}' {
            let (delim, stream, span) = stack.pop().unwrap();
            stack.last_mut().unwrap().1.push(Token::Group { delim, stream, span });
            i += 1;
        } else {
            let next = chars.get(i + 1).copied().unwrap_or(' ');
            let joint = !next.is_whitespace() && !next.is_alphanumeric() && !"()[]{}_".contains(next);
            stack.last_mut().unwrap().1.push(Token::Punct { ch: c, joint, span });
            i += 1;
        }
    }
    assert_eq!(stack.len(), 1);
    stack.pop().unwrap().1
}

// Renders tokens as text, one space between tokens, for readable comparisons.
fn show(tokens: &[Token]) -> String {
    let mut out: Vec<String> = Vec::new();
    for t in tokens {
        out.push(match t {
            Token::Ident { text, .. } | Token::Literal { text, .. } => text.clone(),
            Token::Punct { ch, .. } => ch.to_string(),
            Token::Group { delim, stream, .. } => {
                let (open, close) = match delim {
                    Delimiter::Parenthesis => ("(", ")"),
                    Delimiter::Bracket => ("[", "]"),
                    Delimiter::Brace => ("{", "}"),
                };
                let inner = show(stream);
                if inner.is_empty() {
                    format!("{}{}", open, close)
                } else {
                    format!("{} {} {}", open, inner, close)
                }
            }
        });
    }
    out.join(" ")
}

fn contains_punct(tokens: &[Token], c: char) -> bool {
    tokens.iter().any(|t| match t {
        Token::Punct { ch, .. } => *ch == c,
        Token::Group { stream, .. } => contains_punct(stream, c),
        _ => false,
    })
}

// Evaluates desugared integer expressions: `+`, parentheses, `x.clone()`,
// `Clone::clone(&x)`, `match e { p => body }`, the macros `inc!` and `add!`,
// the functions `inc` and `add`, and `tick()`, which counts its calls.
struct Eval {
    env: HashMap<String, i64>,
    ticks: i64,
}

fn split_commas(tokens: &[Token]) -> Vec<&[Token]> {
    if tokens.is_empty() {
        return Vec::new();
    }
    tokens
        .split(|t| matches!(t, Token::Punct { ch: ',', .. }))
        .collect()
}

fn ident(t: Option<&Token>) -> Option<&str> {
    match t {
        Some(Token::Ident { text, .. }) => Some(text.as_str()),
        _ => None,
    }
}

fn is_punct(t: Option<&Token>, c: char) -> bool {
    matches!(t, Some(Token::Punct { ch, .. }) if *ch == c)
}

impl Eval {
    fn expr(&mut self, tokens: &[Token]) -> i64 {
        let mut pos = 0;
        let total = self.sum(tokens, &mut pos);
        assert_eq!(pos, tokens.len(), "unexpected: {}", show(&tokens[pos..]));
        total
    }

    fn sum(&mut self, tokens: &[Token], pos: &mut usize) -> i64 {
        let mut total = self.term(tokens, pos);
        while is_punct(tokens.get(*pos), '+') {
            *pos += 1;
            total += self.term(tokens, pos);
        }
        total
    }

    fn args(&mut self, group: &Token) -> Vec<i64> {
        match group {
            Token::Group { stream, .. } => {
                split_commas(stream).into_iter().map(|a| self.expr(a)).collect()
            }
            _ => panic!("expected arguments"),
        }
    }

    fn call(&mut self, name: &str, args: Vec<i64>) -> i64 {
        match (name, args.as_slice()) {
            ("inc", [x]) => x + 1,
            ("add", [x, y]) => x + y,
            ("tick", []) => {
                self.ticks += 1;
                self.ticks
            }
            _ => panic!("no such callee: {} {:?}", name, args),
        }
    }

    fn term(&mut self, tokens: &[Token], pos: &mut usize) -> i64 {
        let mut value = self.primary(tokens, pos);
        while is_punct(tokens.get(*pos), '.') {
            assert_eq!(ident(tokens.get(*pos + 1)), Some("clone"));
            assert!(matches!(tokens.get(*pos + 2), Some(Token::Group { stream, .. }) if stream.is_empty()));
            *pos += 3;
            value = value.clone();
        }
        value
    }

    fn primary(&mut self, tokens: &[Token], pos: &mut usize) -> i64 {
        let t = &tokens[*pos];
        match t {
            Token::Literal { text, .. } => {
                *pos += 1;
                text.parse().unwrap()
            }
            Token::Group { delim: Delimiter::Parenthesis, stream, .. } => {
                *pos += 1;
                self.expr(stream)
            }
            Token::Ident { text, .. } if text == "match" => {
                *pos += 1;
                let scrutinee = self.sum(tokens, pos);
                let body = *pos;
                *pos += 1;
                match &tokens[body] {
                    Token::Group { stream, .. } => {
                        let name = ident(stream.first()).unwrap().to_string();
                        assert!(is_punct(stream.get(1), '=') && is_punct(stream.get(2), '>'));
                        let saved = self.env.insert(name.clone(), scrutinee);
                        let r = self.expr(&stream[3..]);
                        match saved {
                            Some(v) => self.env.insert(name, v),
                            None => self.env.remove(&name),
                        };
                        r
                    }
                    _ => unreachable!(),
                }
            }
            Token::Ident { text, .. } if text == "Clone" => {
                assert!(is_punct(tokens.get(*pos + 1), ':') && is_punct(tokens.get(*pos + 2), ':'));
                assert_eq!(ident(tokens.get(*pos + 3)), Some("clone"));
                *pos += 5;
                match &tokens[*pos - 1] {
                    Token::Group { stream, .. } => {
                        assert!(is_punct(stream.first(), '&'));
                        self.expr(&stream[1..])
                    }
                    _ => panic!("expected arguments"),
                }
            }
            Token::Ident { text, .. } => {
                if is_punct(tokens.get(*pos + 1), '!') {
                    *pos += 3;
                    let args = self.args(&tokens[*pos - 1]);
                    self.call(text, args)
                } else if matches!(tokens.get(*pos + 1), Some(Token::Group { delim: Delimiter::Parenthesis, .. })) {
                    *pos += 2;
                    let args = self.args(&tokens[*pos - 1]);
                    self.call(text, args)
                } else {
                    *pos += 1;
                    *self.env.get(text.as_str()).unwrap_or_else(|| panic!("unbound {}", text))
                }
            }
            _ => panic!("unexpected token: {}", show(&tokens[*pos..])),
        }
    }
}

// Desugars the whole item `fn name(i: i32) -> i32 { body }` and evaluates
// the body with `i` bound to `arg`; returns the value and the `tick()` count.
fn run_counting(item: &str, arg: i64) -> (i64, i64) {
    let out = tilde(lex(item));
    assert!(!contains_punct(&out, '~'), "left over: {}", show(&out));
    let body = match out.last() {
        Some(Token::Group { delim: Delimiter::Brace, stream, .. }) => stream,
        _ => panic!("no body in {}", show(&out)),
    };
    let mut ev = Eval { env: HashMap::new(), ticks: 0 };
    ev.env.insert("i".to_string(), arg);
    let v = ev.expr(body);
    (v, ev.ticks)
}

fn run(item: &str, arg: i64) -> i64 {
    run_counting(item, arg).0
}

#[test]
fn test_unary_macro() {
    assert_eq!(run("pub fn basic( i: i32 ) -> i32 { i.~inc!() }", 0), 1);
    assert_eq!(run("pub fn method( i: i32 ) -> i32 { i.clone().~inc!() }", 1), 2);
    assert_eq!(run("pub fn func( i: i32 ) -> i32 { Clone::clone( &i ).~inc!() }", 2), 3);
    let misc = "pub fn misc( i: i32 ) -> i32 {
            (   i
              + i.clone().~inc!()
              + i.~inc!().clone().~inc!()
              + i.~inc!().clone().~inc!().clone().~inc!()
            ).~inc!()
        }";
    assert_eq!(run(misc, 3), 19);
}

#[test]
fn test_binary_macro() {
    assert_eq!(run("pub fn basic( i: i32 ) -> i32 { i.~add!(i) }", 0), 0);
    assert_eq!(run("pub fn method( i: i32 ) -> i32 { i.clone().~add!(i) }", 1), 2);
    assert_eq!(run("pub fn func( i: i32 ) -> i32 { Clone::clone( &i ).~add!(i) }", 2), 4);
    let misc = "pub fn misc( i: i32 ) -> i32 {
            (   i
              + i.clone().~add!(i)
              + i.~add!(i).clone().~add!(i)
              + i.~add!(i).clone().~add!(i).clone().~add!(i)
            ).~add!(i)
        }";
    assert_eq!(run(misc, 3), 33);
}

#[test]
fn test_unary_fn() {
    assert_eq!(run("pub fn basic( i: i32 ) -> i32 { i.~inc() }", 0), 1);
    assert_eq!(run("pub fn method( i: i32 ) -> i32 { i.clone().~inc() }", 1), 2);
    assert_eq!(run("pub fn func( i: i32 ) -> i32 { Clone::clone( &i ).~inc() }", 2), 3);
    let misc = "pub fn misc( i: i32 ) -> i32 {
            (   i
              + i.clone().~inc()
              + i.~inc().clone().~inc()
              + i.~inc().clone().~inc().clone().~inc()
            ).~inc()
        }";
    assert_eq!(run(misc, 3), 19);
}

#[test]
fn test_binary_fn() {
    assert_eq!(run("pub fn basic( i: i32 ) -> i32 { i.~add(i) }", 0), 0);
    assert_eq!(run("pub fn method( i: i32 ) -> i32 { i.clone().~add(i) }", 1), 2);
    assert_eq!(run("pub fn func( i: i32 ) -> i32 { Clone::clone( &i ).~add(i) }", 2), 4);
    let misc = "pub fn misc( i: i32 ) -> i32 {
            (   i
              + i.clone().~add(i)
              + i.~add(i).clone().~add(i)
              + i.~add(i).clone().~add(i).clone().~add(i)
            ).~add(i)
        }";
    assert_eq!(run(misc, 3), 33);
}

#[test]
fn test_binary_macro_and_fn() {
    assert_eq!(run("pub fn basic( i: i32 ) -> i32 { i.~add!(i).~add(i) }", 0), 0);
    assert_eq!(run("pub fn method( i: i32 ) -> i32 { i.clone().~add!(i).~add(i) }", 1), 3);
    assert_eq!(run("pub fn func( i: i32 ) -> i32 { Clone::clone( &i ).~add!(i).~add(i) }", 2), 6);
    let misc = "pub fn misc( i: i32 ) -> i32 {
            (   i
              + i.~add!(i).clone().~add!(i).~add(i)
              + i.~add!(i).~add(i).~add!(i).clone().~add!(i).~add(i)
              + i.~add!(i).~add(i).~add!(i).clone().~add!(i).~add(i).~add!(i).clone().~add(i)
            ).~add(i)
        }";
    assert_eq!(run(misc, 3), 60);
}

#[test]
fn scenario_inc_macro_on_zero() {
    assert_eq!(run("fn f(i: i32) -> i32 { i.~inc!() }", 0), 1);
}

#[test]
fn scenario_add_macro() {
    assert_eq!(run("fn f(i: i32) -> i32 { i.~add!(i) }", 0), 0);
    assert_eq!(run("fn f(i: i32) -> i32 { i.~add!(i) }", 2), 4);
}

#[test]
fn scenario_macro_then_fn() {
    assert_eq!(run("fn f(i: i32) -> i32 { i.~add!(i).~add(i) }", 1), 3);
}

#[test]
fn scenario_ordinary_call_before_marker() {
    assert_eq!(run("fn f(i: i32) -> i32 { i.clone().~inc() }", 1), 2);
    let out = tilde(lex("i.clone().~inc()"));
    assert_eq!(show(&out), "inc ( i . clone () )");
}

#[test]
fn receiver_evaluated_once_by_macro_form() {
    // `add!` names its first argument once, so `tick()` runs once.
    assert_eq!(run_counting("fn f(i: i32) -> i32 { tick().~add!(10) }", 0), (11, 1));
    assert_eq!(run_counting("fn f(i: i32) -> i32 { tick().~add!(i).~add!(i) }", 5), (11, 1));
    let out = tilde(lex("tick().~add!(10)"));
    assert_eq!(show(&out), "match tick () { __tilde_postfix_macro_self__ = > add ! ( __tilde_postfix_macro_self__ , 10 ) }");
}

fn desugared(src: &str) -> String {
    show(&tilde(lex(src)))
}

#[test]
fn identity_without_marker() {
    for src in [
        "fn f(a: A::B) -> u8 { a.b.c(1, [2, 3]) + x.0 ; y. z }",
        "a . ; b ~ c ! d",
        "x.",
        "trailing ~",
    ] {
        assert_eq!(desugared(src), show(&lex(src)));
        assert_eq!(format!("{:?}", tilde(lex(src))), format!("{:?}", lex(src)));
    }
}

#[test]
fn function_form_exact_tokens() {
    assert_eq!(desugared("a.~f(b)"), "f ( a , b )");
    assert_eq!(desugared("a.~f(b, c)"), "f ( a , b , c )");
    assert_eq!(desugared("A::B.~f()"), "f ( A : : B )");
}

#[test]
fn empty_argument_lists_add_no_separator() {
    assert_eq!(desugared("a.~f()"), "f ( a )");
    assert_eq!(
        desugared("a.~f!()"),
        "match a { __tilde_postfix_macro_self__ = > f ! ( __tilde_postfix_macro_self__ ) }"
    );
}

#[test]
fn macro_keeps_argument_delimiter() {
    assert_eq!(
        desugared("v.~vec![1]"),
        "match v { __tilde_postfix_macro_self__ = > vec ! [ __tilde_postfix_macro_self__ , 1 ] }"
    );
}

#[test]
fn nested_links_are_rewritten_inside_arguments() {
    assert_eq!(
        desugared("f( x.~g() )"),
        "f ( g ( x ) )"
    );
    let out = desugared("y.~h( x.~g!() )");
    assert_eq!(
        out,
        "h ( y , match x { __tilde_postfix_macro_self__ = > g ! ( __tilde_postfix_macro_self__ ) } )"
    );
    assert!(!contains_punct(&tilde(lex("[ { ( a.~b(c.~d!(e.~f())) ) } ]")), '~'));
}

#[test]
fn chained_macros_take_previous_result() {
    assert_eq!(
        desugared("a.~f!().~g!()"),
        "match match a { __tilde_postfix_macro_self__ = > f ! ( __tilde_postfix_macro_self__ ) } \
         { __tilde_postfix_macro_self__ = > g ! ( __tilde_postfix_macro_self__ ) }"
    );
    assert_eq!(desugared("a.~f().~g(1)"), "g ( f ( a ) , 1 )");
}

#[test]
fn interrupted_links_are_given_back() {
    // `~` not followed by a name.
    assert_eq!(desugared("a.~; b"), "a . ~ ; b");
    // A name followed by neither `!` nor `(..)`.
    assert_eq!(desugared("a.~f; b"), "a . ~ f ; b");
    assert_eq!(desugared("a.~f[1]"), "a . ~ f [ 1 ]");
    // `name!` without a group.
    assert_eq!(desugared("a.~f!; b"), "a . ~ f ! ; b");
    // A `.` followed by something other than `~` or a name.
    assert_eq!(desugared("a.0 + b"), "a . 0 + b");
    // Links cut off by the end of input.
    assert_eq!(desugared("a.~f!"), "a . ~ f !");
    assert_eq!(desugared("a.~f"), "a . ~ f");
    assert_eq!(desugared("a."), "a .");
}

#[test]
fn interrupted_link_group_is_still_desugared() {
    assert_eq!(desugared("a.~f; (x.~g())"), "a . ~ f ; ( g ( x ) )");
    assert_eq!(desugared("a.~(x.~g())"), "a . ~ ( g ( x ) )");
}

#[test]
fn punctuation_ends_the_receiver() {
    assert_eq!(desugared("a + b.~f()"), "a + f ( b )");
    assert_eq!(desugared("&x.~f()"), "& f ( x )");
}

#[test]
fn spans_follow_their_tokens() {
    let out = tilde(lex("a.~f(b)"));
    // `f` at 3, the group `(b)` at 4, `a` at 0, `b` at 5.
    match &out[..] {
        [Token::Ident { span: 3, .. }, Token::Group { span: 4, stream, .. }] => match &stream[..] {
            [Token::Ident { span: 0, .. }, Token::Punct { ch: ',', span: 4, .. }, Token::Ident { span: 5, .. }] => {}
            _ => panic!("{:?}", stream),
        },
        _ => panic!("{:?}", out),
    }
}
