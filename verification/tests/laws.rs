use dockerfile_parser::{parse_instruction, From, Instruction, InstructionKind, Run};

fn is_argument(text: &str) -> bool {
    let blank = |c: char| c == ' ' || c == '\t' || c == '\r' || c == '\n';
    !text.contains('\r')
        && !text.contains('\n')
        && !text.starts_with(blank)
        && !text.ends_with(blank)
}

fn written_out(instruction: &Instruction) -> String {
    format!("{} {}", instruction.kind().name(), instruction.argument())
}

const IMAGES: [&str; 6] = [
    "ubuntu:test",
    "a0:b1",
    "registry.example.com:5000/team/base-image:1.2.3_rc",
    "my.repo-name_x:v1.0-beta_2",
    "localhost.localdomain:80/app:latest",
    "x-y.z:0",
];

const SCRIPTS: [&str; 7] = [
    "FROM ubuntu:test",
    "\n\n  FROM x:y  \n",
    "RUN /bin/bash -c echo \"test\"",
    "run   make   all \t\nFROM next",
    "From \n\n late:1\n",
    "RUN ",
    "from\timage:tag\r\n\r\nrun x",
];

#[test]
fn from_line_gives_the_image_and_leaves_nothing() {
    for image in IMAGES {
        let line = format!("FROM {}", image);
        assert_eq!(parse_instruction(&line), Ok(("", Instruction::From(From::new(image)))));
    }
}

#[test]
fn every_case_of_the_keyword_parses_alike() {
    for image in IMAGES {
        let expected = Ok(("", Instruction::From(From::new(image))));
        for word in ["FROM", "From", "fRoM", "from", "froM", "FRom"] {
            let line = format!("{} {}", word, image);
            assert_eq!(parse_instruction(&line), expected);
        }
        let expected = Ok(("", Instruction::Run(Run::new(image))));
        for word in ["RUN", "Run", "rUn", "run", "ruN"] {
            let line = format!("{} {}", word, image);
            assert_eq!(parse_instruction(&line), expected);
        }
    }
}

#[test]
fn leading_whitespace_changes_nothing() {
    let texts = ["FROM x:y", "RUN a b\nRUN c", "FOO bar", "FROMubuntu", "", "# note", "FROM "];
    for text in texts {
        for lead in [" ", "\n", "\n\n  ", "\t\r\n \n"] {
            let padded = format!("{}{}", lead, text);
            assert_eq!(parse_instruction(&padded), parse_instruction(text));
        }
    }
}

#[test]
fn whitespace_around_the_parts_changes_nothing() {
    for argument in ["x:y", "echo  hi", ""] {
        let plain_line = format!("RUN {}", argument);
        let plain = parse_instruction(&plain_line);
        assert_eq!(plain, Ok(("", Instruction::Run(Run::new(argument)))));
        for gap in [" ", "\t", "  \t "] {
            for pad in ["", "\n", " \r\n\t"] {
                for trail in ["", " ", "\n", "  \t\r\n\n "] {
                    let line = format!("\n RUN{}{}{}{}", gap, pad, argument, trail);
                    assert_eq!(parse_instruction(&line), plain);
                }
            }
        }
    }
}

#[test]
fn line_followed_by_text_leaves_that_text() {
    for rest in ["RUN next", "x", "# note\n"] {
        let input = format!(" from  a:b \t\n\n  {}", rest);
        assert_eq!(parse_instruction(&input), Ok((rest, Instruction::From(From::new("a:b")))));
    }
}

#[test]
fn parsed_arguments_are_trimmed_single_lines() {
    for script in SCRIPTS {
        let (rest, instruction) = parse_instruction(script).unwrap();
        assert!(is_argument(instruction.argument()));
        assert!(!rest.starts_with(|c: char| c == ' ' || c == '\t' || c == '\r' || c == '\n'));
        assert!(rest.len() < script.len());
        assert!(script.ends_with(rest));
    }
}

#[test]
fn written_out_instruction_parses_to_itself() {
    for script in SCRIPTS {
        let (_, instruction) = parse_instruction(script).unwrap();
        let line = written_out(&instruction);
        let (rest, again) = parse_instruction(&line).unwrap();
        assert_eq!(rest, "");
        assert_eq!(again, instruction);
    }
}

#[test]
fn written_out_line_has_keyword_space_argument() {
    let (_, instruction) = parse_instruction("\n FROM   ubuntu:test  \n").unwrap();
    assert_eq!(written_out(&instruction), "from ubuntu:test");
    let (_, instruction) = parse_instruction("rUn  echo a  b").unwrap();
    assert_eq!(written_out(&instruction), "run echo a  b");
}

#[test]
fn name_of_each_kind_is_its_keyword() {
    for kind in [InstructionKind::From, InstructionKind::Run] {
        assert_eq!(InstructionKind::lookup(kind.name()), Some(kind));
        assert_eq!(InstructionKind::lookup(&kind.name().to_uppercase()), Some(kind));
    }
}

#[test]
fn unknown_words_are_unrecognized_wherever_they_stand() {
    for word in ["FOO", "fromage", "r", "Copy", "RUNFROM"] {
        for lead in ["", "\n ", "\t"] {
            let tail = " bar\n";
            let input = format!("{}{}{}", lead, word, tail);
            let error = parse_instruction(&input).unwrap_err();
            assert_eq!(error.kind, dockerfile_parser::ParseErrorKind::UnrecognizedInstruction);
            assert_eq!(error.at, format!("{}{}", word, tail));
        }
    }
}

#[test]
fn missing_blank_is_malformed_wherever_it_stands() {
    for word in ["", "FROM", "run", "x"] {
        for tail in ["", ":a", "1 b", "\u{a0}c"] {
            let input = format!(" \n{}{}", word, tail);
            let error = parse_instruction(&input).unwrap_err();
            assert_eq!(error.kind, dockerfile_parser::ParseErrorKind::MalformedKeyword);
            assert_eq!(error.at, tail);
        }
    }
}
