use asmvm::assembly::assembler::{Assembler, INS_TOKEN_TYPES};
use asmvm::assembly::token::{Token, TokenType};

#[test]
fn test_consume_match() {
    let tokens = vec![
        Token {
            lexeme: String::from("JMP"),
            token_type: TokenType::Jmp,
            line: 0,
        },
        Token {
            lexeme: String::from("JMP"),
            token_type: TokenType::Ldb,
            line: 0,
        },
        Token {
            lexeme: String::from("JMP"),
            token_type: TokenType::Label,
            line: 0,
        },
        Token {
            lexeme: String::from("JMP"),
            token_type: TokenType::BytDir,
            line: 0,
        },
    ];
    let mut assembler = Assembler::new(&tokens, &String::from("test"));

    assert!(assembler.consume_match(TokenType::Jmp));
    assert!(!assembler.consume_match(TokenType::Label));
    assert!(assembler.consume_match(TokenType::Ldb));
    assert!(assembler.consume_match(TokenType::Label));
    assert!(!assembler.consume_match(TokenType::Jmp));
    assert!(assembler.consume_match(TokenType::BytDir));
    assert!(!assembler.consume_match(TokenType::Stb));
}

#[test]
fn test_consume_first_match() {
    let tokens = vec![
        Token {
            lexeme: String::from("JMP"),
            token_type: TokenType::Jmp,
            line: 0,
        },
        Token {
            lexeme: String::from("JMP"),
            token_type: TokenType::Ldb,
            line: 0,
        },
        Token {
            lexeme: String::from("JMP"),
            token_type: TokenType::Label,
            line: 0,
        },
        Token {
            lexeme: String::from("JMP"),
            token_type: TokenType::BytDir,
            line: 0,
        },
        Token {
            lexeme: String::from("JMP"),
            token_type: TokenType::Jmp,
            line: 10,
        },
    ];
    let mut assembler = Assembler::new(&tokens, &String::from("test"));

    assert!(assembler.consume_first_match(&[TokenType::Jmp, TokenType::Label, TokenType::Add]));
    assert!(!assembler.consume_first_match(&[TokenType::BytDir, TokenType::Label, TokenType::Add]));
    assert!(assembler.consume_first_match(&[TokenType::Jmp, TokenType::Ldb, TokenType::Add]));
    assert!(assembler.consume_first_match(&[TokenType::Jmp, TokenType::Label, TokenType::Add]));
    assert!(!assembler.consume_first_match(&[TokenType::Jmp, TokenType::Label, TokenType::IntImm]));
    assert!(!assembler.consume_first_match(&[
        TokenType::CharImm,
        TokenType::LabelOp,
        TokenType::IntImm
    ]));
    assert!(assembler.consume_first_match(&[TokenType::Jmr, TokenType::BytDir, TokenType::Add]));
    assert!(assembler.consume_first_match(&INS_TOKEN_TYPES));
}

#[test]
fn test_peek_match() {
    let tokens = vec![
        Token {
            lexeme: String::from("JMP"),
            token_type: TokenType::Jmp,
            line: 0,
        },
        Token {
            lexeme: String::from("JMP"),
            token_type: TokenType::Ldb,
            line: 0,
        },
        Token {
            lexeme: String::from("JMP"),
            token_type: TokenType::Label,
            line: 0,
        },
        Token {
            lexeme: String::from("JMP"),
            token_type: TokenType::BytDir,
            line: 0,
        },
    ];
    let mut assembler = Assembler::new(&tokens, &String::from("test"));

    assert!(assembler.peek_match(TokenType::Jmp));
    assembler.advance();
    assert!(!assembler.peek_match(TokenType::Label));
    assert!(assembler.peek_match(TokenType::Ldb));
    assembler.advance();
    assert!(assembler.peek_match(TokenType::Label));
    assembler.advance();
    assert!(!assembler.peek_match(TokenType::LabelOp));
    assert!(!assembler.peek_match(TokenType::IntDir));
    assert!(!assembler.peek_match(TokenType::CharImm));
    assert!(assembler.peek_match(TokenType::BytDir));
}

#[test]
fn test_peek_first_match() {
    let tokens = vec![
        Token {
            lexeme: String::from("JMP"),
            token_type: TokenType::Jmp,
            line: 0,
        },
        Token {
            lexeme: String::from("JMP"),
            token_type: TokenType::Ldb,
            line: 0,
        },
        Token {
            lexeme: String::from("JMP"),
            token_type: TokenType::Label,
            line: 0,
        },
        Token {
            lexeme: String::from("JMP"),
            token_type: TokenType::BytDir,
            line: 0,
        },
    ];
    let mut assembler = Assembler::new(&tokens, &String::from("test"));

    assert!(assembler.peek_first_match(&[TokenType::Jmp, TokenType::Label, TokenType::Add]));
    assembler.advance();
    assert!(!assembler.peek_first_match(&[TokenType::BytDir, TokenType::Label, TokenType::Add]));
    assert!(assembler.peek_first_match(&[TokenType::Jmp, TokenType::Ldb, TokenType::Add]));
    assembler.advance();
    assert!(assembler.peek_first_match(&[TokenType::Jmp, TokenType::Label, TokenType::Add]));
    assembler.advance();
    assert!(!assembler.peek_first_match(&[TokenType::Jmp, TokenType::Label, TokenType::IntImm]));
    assert!(!assembler.peek_first_match(&[
        TokenType::CharImm,
        TokenType::LabelOp,
        TokenType::IntImm
    ]));
    assert!(assembler.consume_first_match(&[TokenType::Jmr, TokenType::BytDir, TokenType::Add]));
}

use asmvm::assembly::assembler::{AssemblerErr, DIR_TOKEN_TYPES};
use asmvm::assembly::lexer::Lexer;
use asmvm::vm::instruction::Instruction;
use asmvm::vm::opcode::Opcode;

fn lex(source: &str) -> Vec<Token> {
    let lines = source.split_inclusive('\n').map(|line| line.to_owned()).collect();
    Lexer::new(lines).tokenize().expect("the source lexes")
}

fn assemble(source: &str) -> Result<Vec<u8>, AssemblerErr> {
    let tokens = lex(source);
    Assembler::new(&tokens, &String::from("test")).run()
}

fn word(image: &[u8], at: usize) -> i32 {
    i32::from_le_bytes([image[at], image[at + 1], image[at + 2], image[at + 3]])
}

fn record(image: &[u8], at: usize) -> (i32, i32, i32) {
    (word(image, at), word(image, at + 4), word(image, at + 8))
}

fn token(token_type: TokenType, lexeme: &str, line: usize) -> Token {
    Token { token_type, lexeme: String::from(lexeme), line }
}

#[test]
fn assembles_the_sum_program() {
    let image = assemble("MOVI R0,5\nMOVI R1,10\nADD R0,R1\nTRP 1\nTRP 0\n").unwrap();
    assert_eq!(image.len(), 4 + 5 * 12);
    assert_eq!(word(&image, 0), 4);
    assert_eq!(record(&image, 4), (31, 0, 5));
    assert_eq!(record(&image, 16), (31, 1, 10));
    assert_eq!(record(&image, 28), (13, 0, 1));
    assert_eq!(record(&image, 40), (21, 1, 0));
    assert_eq!(record(&image, 52), (21, 0, 0));
}

#[test]
fn resolves_a_label_that_is_defined_after_its_reference() {
    let image = assemble("JMP end\nMOVI R0, 1\nend: TRP 0\n").unwrap();
    assert_eq!(record(&image, 4), (1, 28, 0));
    assert_eq!(record(&image, 28), (21, 0, 0));
}

#[test]
fn resolves_forward_and_backward_branches_alike() {
    let image = assemble("top: BNZ R1, bottom\nBRZ R2, top\nbottom: BLT R3, top\nBGT R4, bottom\n")
        .unwrap();
    assert_eq!(record(&image, 4), (3, 1, 28));
    assert_eq!(record(&image, 16), (6, 2, 4));
    assert_eq!(record(&image, 28), (5, 3, 4));
    assert_eq!(record(&image, 40), (4, 4, 28));
}

#[test]
fn lays_out_directives_before_the_code() {
    let image = assemble(
        "n: .int #-2\nc: .byt 'A'\nnl: .byt '\\n'\ns: .str \"Hi!\"\nz: .int\nb: .byt 258\nLDR R0, n\nLDB R1, c\nLDA R2, s\nTRP 0\n",
    )
    .unwrap();
    // header, word, byte, byte, length byte and three bytes of text, word, byte
    let code = 4 + 4 + 1 + 1 + 4 + 4 + 1;
    assert_eq!(word(&image, 0), code as i32);
    assert_eq!(word(&image, 4), -2);
    assert_eq!(image[8], b'A');
    assert_eq!(image[9], b'\n');
    assert_eq!(&image[10..14], &[3, b'H', b'i', b'!']);
    assert_eq!(word(&image, 14), 0);
    assert_eq!(image[18], 2);
    assert_eq!(record(&image, code), (10, 0, 4));
    assert_eq!(record(&image, code + 12), (12, 1, 8));
    assert_eq!(record(&image, code + 24), (8, 2, 10));
    assert_eq!(record(&image, code + 36), (21, 0, 0));
    assert_eq!(image.len(), code + 48);
}

#[test]
fn counts_the_bytes_of_a_text_not_its_characters() {
    let image = assemble("s: .str \"h\u{e9}\"\nend: .byt 1\nLDA R0, end\n").unwrap();
    assert_eq!(&image[4..8], &[3, b'h', 0xc3, 0xa9]);
    assert_eq!(image[8], 1);
    assert_eq!(word(&image, 0), 9);
    assert_eq!(record(&image, 9), (8, 0, 8));
}

#[test]
fn an_empty_text_takes_its_length_byte() {
    let image = assemble(".str \"\"\n.str\nTRP 0\n").unwrap();
    assert_eq!(&image[4..6], &[0, 0]);
    assert_eq!(word(&image, 0), 6);
}

#[test]
fn a_program_without_instructions_has_an_empty_code_segment() {
    let image = assemble(".int 7\n").unwrap();
    assert_eq!(image.len(), 8);
    assert_eq!(word(&image, 0), 8);
    assert_eq!(word(&image, 4), 7);
}

#[test]
fn an_empty_program_is_a_header() {
    assert_eq!(assemble("").unwrap(), vec![4, 0, 0, 0]);
}

#[test]
fn picks_the_direct_variant_for_a_label_and_the_indirect_one_for_a_register() {
    let image = assemble(
        "d: .int 1\nSTR R1, d\nSTR R1, R2\nLDR R1, d\nLDR R1, R2\nSTB R1, d\nSTB R1, R2\nLDB R1, d\nLDB R1, R2\n",
    )
    .unwrap();
    let ids: Vec<i32> = (0..8).map(|k| word(&image, 8 + 12 * k)).collect();
    assert_eq!(ids, vec![9, 22, 10, 23, 11, 24, 12, 25]);
    assert_eq!(record(&image, 8), (9, 1, 4));
    assert_eq!(record(&image, 20), (22, 1, 2));
}

#[test]
fn encodes_each_mnemonic_as_its_own_opcode() {
    let image = assemble(
        "JMR R1\nMOV R1, R2\nCMP R1, R2\nCMPI R1, 3\nADI R1, -3\nSUB R1, R2\nMUL R1, R2\nMULI R1, 'a'\nDIV R1, R2\nDIVI R1, #2\n",
    )
    .unwrap();
    let records: Vec<(i32, i32, i32)> = (0..10).map(|k| record(&image, 4 + 12 * k)).collect();
    assert_eq!(
        records,
        vec![
            (2, 1, 0),
            (7, 1, 2),
            (20, 1, 2),
            (32, 1, 3),
            (14, 1, -3),
            (15, 1, 2),
            (16, 1, 2),
            (33, 1, 97),
            (17, 1, 2),
            (34, 1, 2),
        ]
    );
}

#[test]
fn writes_what_the_instruction_encoder_writes() {
    let image = assemble("here: BNZ R7, here\n").unwrap();
    let mut expected = vec![4u8, 0, 0, 0];
    Instruction { opcode: Opcode::Bnz, op1: 7, op2: 4 }.write(&mut expected);
    assert_eq!(image, expected);
}

#[test]
fn reports_an_expected_token_type_with_the_line() {
    match assemble("TRP 0\nADD R1 R2\n") {
        Err(AssemblerErr::ExpectedTokenType(TokenType::Comma, 2)) => {}
        other => panic!("unexpected result {:?}", other),
    }
    match assemble("MOV R1,\n") {
        Err(AssemblerErr::ExpectedTokenType(TokenType::Rg, 1)) => {}
        other => panic!("unexpected result {:?}", other),
    }
    match assemble("JMP R1\n") {
        Err(AssemblerErr::ExpectedTokenType(TokenType::LabelOp, 1)) => {}
        other => panic!("unexpected result {:?}", other),
    }
    match assemble("MOVI R1, R2\n") {
        Err(AssemblerErr::ExpectedTokenType(TokenType::IntImm, 1)) => {}
        other => panic!("unexpected result {:?}", other),
    }
    match assemble("STR R0, 0\n") {
        Err(AssemblerErr::ExpectedTokenType(TokenType::LabelOp, 1)) => {}
        other => panic!("unexpected result {:?}", other),
    }
}

#[test]
fn reports_an_expected_opcode() {
    match assemble("TRP 0\n\n, TRP 0\n") {
        Err(AssemblerErr::ExpectedOpcode(3)) => {}
        other => panic!("unexpected result {:?}", other),
    }
    // a directive after the first instruction
    match assemble("TRP 0\n.int 1\n") {
        Err(AssemblerErr::ExpectedOpcode(2)) => {}
        other => panic!("unexpected result {:?}", other),
    }
    // a label with nothing after it
    match assemble("TRP 0\nend:\n") {
        Err(AssemblerErr::ExpectedOpcode(2)) => {}
        other => panic!("unexpected result {:?}", other),
    }
}

#[test]
fn reports_an_invalid_register() {
    match assemble("MOV R1, R99999999999\n") {
        Err(AssemblerErr::InvalidRg(text, 1)) => assert_eq!(text, "R99999999999"),
        other => panic!("unexpected result {:?}", other),
    }
    let tokens = vec![token(TokenType::Jmr, "JMR", 4), token(TokenType::Rg, "X1", 4)];
    match Assembler::new(&tokens, &String::from("test")).run() {
        Err(AssemblerErr::InvalidRg(text, 4)) => assert_eq!(text, "X1"),
        other => panic!("unexpected result {:?}", other),
    }
}

#[test]
fn reports_a_nonexistent_label() {
    match assemble("TRP 0\nJMP nowhere\n") {
        Err(AssemblerErr::NonexistentLabel(name, 2)) => assert_eq!(name, "nowhere"),
        other => panic!("unexpected result {:?}", other),
    }
    match assemble("LDR R1, nowhere\n") {
        Err(AssemblerErr::NonexistentLabel(name, 1)) => assert_eq!(name, "nowhere"),
        other => panic!("unexpected result {:?}", other),
    }
}

#[test]
fn reports_an_invalid_token() {
    match assemble("TRP 5\n") {
        Err(AssemblerErr::InvalidToken(found, 1)) => {
            assert_eq!(found.token_type, TokenType::IntImm);
            assert_eq!(found.lexeme, "5");
        }
        other => panic!("unexpected result {:?}", other),
    }
    match assemble("TRP -1\n") {
        Err(AssemblerErr::InvalidToken(found, 1)) => assert_eq!(found.lexeme, "-1"),
        other => panic!("unexpected result {:?}", other),
    }
    match assemble("TRP 0\nMOVI R1, 2147483648\n") {
        Err(AssemblerErr::InvalidToken(found, 2)) => assert_eq!(found.lexeme, "2147483648"),
        other => panic!("unexpected result {:?}", other),
    }
    match assemble(".byt \"text\"\n") {
        Err(AssemblerErr::InvalidToken(found, 1)) => assert_eq!(found.lexeme, "\"text\""),
        other => panic!("unexpected result {:?}", other),
    }
}

#[test]
fn reports_a_duplicate_symbol() {
    match assemble("a: .int 1\nb: .int 2\na: TRP 0\n") {
        Err(AssemblerErr::DuplicateSymbol(name, 3)) => assert_eq!(name, "a"),
        other => panic!("unexpected result {:?}", other),
    }
}

#[test]
fn takes_the_largest_and_the_smallest_immediate() {
    let image = assemble("MOVI R1, 2147483647\nMOVI R2, #-2147483648\n").unwrap();
    assert_eq!(record(&image, 4), (31, 1, i32::MAX));
    assert_eq!(record(&image, 16), (31, 2, i32::MIN));
}

#[test]
fn reads_register_and_literal_texts() {
    assert_eq!(Assembler::i32_try_from_rg_str(&String::from("R0")), Ok(0));
    assert_eq!(Assembler::i32_try_from_rg_str(&String::from("R63")), Ok(63));
    assert_eq!(Assembler::i32_try_from_rg_str(&String::from("R007")), Ok(7));
    assert_eq!(Assembler::i32_try_from_rg_str(&String::from("R2147483647")), Ok(i32::MAX));
    assert_eq!(Assembler::i32_try_from_rg_str(&String::from("R2147483648")), Err(()));
    assert_eq!(Assembler::i32_try_from_rg_str(&String::from("R")), Err(()));
    assert_eq!(Assembler::i32_try_from_rg_str(&String::from("R-1")), Err(()));
    assert_eq!(Assembler::i32_try_from_rg_str(&String::from("12")), Err(()));
    assert_eq!(Assembler::i32_try_from_rg_str(&String::from("")), Err(()));
    assert_eq!(Assembler::i32_try_from_char_imm_str(&String::from("'a'")), Ok(97));
    assert_eq!(Assembler::i32_try_from_char_imm_str(&String::from("'\u{e9}'")), Ok(0xe9));
    assert_eq!(Assembler::i32_try_from_char_imm_str(&String::from("'ab'")), Err(()));
    assert_eq!(Assembler::i32_try_from_char_imm_str(&String::from("''")), Err(()));
    assert_eq!(Assembler::i32_try_from_char_imm_str(&String::from("a")), Err(()));
    assert_eq!(Assembler::i32_try_from_int_imm_str(&String::from("#12")), Ok(12));
    assert_eq!(Assembler::i32_try_from_int_imm_str(&String::from("12")), Ok(12));
    assert_eq!(Assembler::i32_try_from_int_imm_str(&String::from("+12")), Ok(12));
    assert_eq!(Assembler::i32_try_from_int_imm_str(&String::from("#-12")), Ok(-12));
    assert_eq!(Assembler::i32_try_from_int_imm_str(&String::from("#")), Err(()));
    assert_eq!(Assembler::i32_try_from_int_imm_str(&String::from("-")), Err(()));
    assert_eq!(Assembler::i32_try_from_int_imm_str(&String::from("1x")), Err(()));
}

#[test]
fn the_cursor_keeps_within_the_stream() {
    let tokens = vec![token(TokenType::Trp, "TRP", 1), token(TokenType::IntImm, "0", 2)];
    let mut assembler = Assembler::new(&tokens, &String::from("out"));
    assert_eq!(assembler.file_name(), "out");
    assert!(assembler.previous().is_none());
    assert_eq!(assembler.current_line(), 1);
    assembler.retract();
    assert_eq!(assembler.peek().unwrap().lexeme, "TRP");
    assembler.advance();
    assert_eq!(assembler.peek().unwrap().lexeme, "0");
    assert_eq!(assembler.previous().unwrap().lexeme, "TRP");
    assert_eq!(assembler.current_line(), 2);
    assert!(!assembler.reached_eof());
    assembler.advance();
    assembler.advance();
    assert!(assembler.reached_eof());
    assert!(assembler.peek().is_none());
    assert_eq!(assembler.previous().unwrap().lexeme, "0");
    assert_eq!(assembler.current_line(), 2);
    assembler.reset();
    assert_eq!(assembler.peek().unwrap().lexeme, "TRP");
}

#[test]
fn measures_statements_and_skips_their_operands() {
    let tokens = lex("s: .str \"four\"\n.int 1\n.byt\nADD R1, R2\nx: TRP 0\n");
    let mut assembler = Assembler::new(&tokens, &String::from("test"));
    assert_eq!(assembler.consume_num_bytes(), 0);
    assert!(assembler.consume_match(TokenType::Label));
    assert_eq!(assembler.consume_num_bytes(), 5);
    assert_eq!(assembler.consume_num_bytes(), 4);
    assert_eq!(assembler.consume_num_bytes(), 1);
    assert_eq!(assembler.consume_num_bytes(), 12);
    assert!(assembler.peek_match(TokenType::Label));
    assert_eq!(assembler.consume_num_bytes(), 0);
    assert!(assembler.consume_match(TokenType::Label));
    assert_eq!(assembler.consume_num_bytes(), 12);
    assert!(assembler.reached_eof());
    assert_eq!(assembler.consume_num_bytes(), 0);
}

#[test]
fn reads_statements_one_by_one() {
    let tokens = lex("v: .byt 'x'\nstart: MOVI R1, 'x'\n");
    let mut assembler = Assembler::new(&tokens, &String::from("test"));
    assert!(assembler.pass_one().is_ok());
    assembler.reset();
    match assembler.consume_next_directive() {
        Ok(Some(asmvm::assembly::directive::Directive::Byt(b'x'))) => {}
        other => panic!("unexpected result {:?}", other),
    }
    // no directive here: the label stays for the instruction
    assert!(matches!(assembler.consume_next_directive(), Ok(None)));
    assert!(assembler.peek_match(TokenType::Label));
    assert_eq!(
        assembler.consume_next_instruction().unwrap(),
        Instruction { opcode: Opcode::Movi, op1: 1, op2: 120 }
    );
    assert!(assembler.reached_eof());
}

#[test]
fn the_keyword_lists_hold_what_they_should() {
    assert_eq!(DIR_TOKEN_TYPES, [TokenType::BytDir, TokenType::IntDir, TokenType::StrDir]);
    assert_eq!(INS_TOKEN_TYPES.len(), 32);
    assert!(INS_TOKEN_TYPES.iter().all(|t| Opcode::try_from(*t).is_ok()));
    assert!(DIR_TOKEN_TYPES.iter().all(|t| Opcode::try_from(*t).is_err()));
}

#[test]
fn running_twice_gives_the_same_image() {
    let tokens = lex("a: .int 1\nJMP b\nb: TRP 0\n");
    let mut assembler = Assembler::new(&tokens, &String::from("test"));
    let first = assembler.run().unwrap();
    let second = assembler.run().unwrap();
    assert_eq!(first, second);
}

#[test]
fn a_statement_in_error_is_not_consumed() {
    let tokens = lex("x: ADD R1 R2\n.byt \"no\"\n");
    let mut assembler = Assembler::new(&tokens, &String::from("test"));
    assert!(matches!(
        assembler.consume_next_instruction(),
        Err(AssemblerErr::ExpectedTokenType(TokenType::Comma, 1))
    ));
    assert!(assembler.peek_match(TokenType::Label));
    assert_eq!(assembler.current_line(), 1);
    for _ in 0..4 {
        assembler.advance();
    }
    assert!(assembler.peek_match(TokenType::BytDir));
    assert!(matches!(
        assembler.consume_next_directive(),
        Err(AssemblerErr::InvalidToken(_, 2))
    ));
    assert!(assembler.peek_match(TokenType::BytDir));
}

#[test]
fn a_failed_pass_leaves_the_cursor_at_the_start() {
    let tokens = lex("a: TRP 0\na: TRP 1\n");
    let mut assembler = Assembler::new(&tokens, &String::from("test"));
    assert!(matches!(assembler.pass_one(), Err(AssemblerErr::DuplicateSymbol(_, 2))));
    assert!(assembler.previous().is_none());
    assert!(assembler.peek_match(TokenType::Label));

    let tokens = lex("TRP 0\nJMP nowhere\n");
    let mut assembler = Assembler::new(&tokens, &String::from("test"));
    assert!(assembler.pass_one().is_ok());
    assert!(assembler.reached_eof());
    assert!(matches!(assembler.pass_two(), Err(AssemblerErr::NonexistentLabel(_, 2))));
    assert!(assembler.previous().is_none());
    assert!(matches!(assembler.run(), Err(AssemblerErr::NonexistentLabel(_, 2))));
    assert!(assembler.previous().is_none());
}
