use bili_audio::commands::{parse_command, show_help, Command, HELP};

#[test]
fn plain_commands() {
    assert_eq!(parse_command("help"), Command::Help);
    assert_eq!(parse_command("list"), Command::List);
    assert_eq!(parse_command("exit"), Command::Exit);
    assert_eq!(parse_command("debug"), Command::Debug);
}

#[test]
fn white_space_at_the_ends_does_not_count() {
    assert_eq!(parse_command("help\n"), Command::Help);
    assert_eq!(parse_command("  list \r\n"), Command::List);
    assert_eq!(parse_command("\texit\t"), Command::Exit);
    assert_eq!(parse_command("\u{3000}debug\u{a0}\u{2003}"), Command::Debug);
    assert_eq!(parse_command(" play 2 \n"), Command::Play(2));
}

#[test]
fn anything_else_is_unknown() {
    for line in [
        "", " ", "\n", "Help", "helpx", "help me", "lis", "list 1", "exits", "play", "download",
        "play\t3", "download\tBV1", "playing 3", "downloads BV1", "x play 3", "he lp",
    ] {
        assert_eq!(parse_command(line), Command::Unknown, "{:?}", line);
    }
}

#[test]
fn play_takes_an_index() {
    assert_eq!(parse_command("play 1"), Command::Play(1));
    assert_eq!(parse_command("play 42"), Command::Play(42));
    assert_eq!(parse_command("play   7"), Command::Play(7));
    assert_eq!(parse_command("play \t7"), Command::Play(7));
    assert_eq!(parse_command("play +5"), Command::Play(5));
    assert_eq!(parse_command("play 007"), Command::Play(7));
    assert_eq!(parse_command("play 0"), Command::Play(0));
    assert_eq!(parse_command("play 3 4"), Command::Play(3));
    assert_eq!(
        parse_command(&format!("play {}", usize::MAX)),
        Command::Play(usize::MAX)
    );
}

#[test]
fn play_with_no_index_counts_as_zero() {
    for line in [
        "play abc", "play -1", "play 1.5", "play +", "play ++1", "play 1_000", "play 0x10",
        "play 12a", "play ٣", "play 99999999999999999999999999", "play 18446744073709551616",
        "play 1+",
    ] {
        assert_eq!(parse_command(line), Command::Play(0), "{:?}", line);
    }
}

#[test]
fn play_index_agrees_with_std_parsing() {
    for word in ["0", "1", "+1", "+0", "10", "0010", "18446744073709551615", "18446744073709551616",
        "184467440737095516150", "-0", "+-1", "", "1e3", "٣", "９"] {
        let expected = word.parse::<usize>().unwrap_or(0);
        let line = format!("play {}", word);
        if word.is_empty() {
            assert_eq!(parse_command(&line), Command::Unknown);
        } else {
            assert_eq!(parse_command(&line), Command::Play(expected), "{:?}", word);
        }
    }
}

#[test]
fn download_takes_the_next_word() {
    assert_eq!(parse_command("download BV1xx"), Command::Download("BV1xx".to_string()));
    assert_eq!(parse_command("download   BV1xx  "), Command::Download("BV1xx".to_string()));
    assert_eq!(parse_command("download BV1xx extra words"), Command::Download("BV1xx".to_string()));
    assert_eq!(parse_command("download \u{3000}音乐\tx"), Command::Download("音乐".to_string()));
    assert_eq!(parse_command("download download"), Command::Download("download".to_string()));
}

#[test]
fn second_word_agrees_with_std_splitting() {
    for line in ["download a", "download  a b", " download\u{2003}a", "download \ta\u{85}b",
        "download a\u{200b}b c", "download \u{1680}x\u{2028}y"] {
        let trimmed = line.trim();
        let expected = if trimmed.starts_with("download ") {
            Command::Download(trimmed.split_whitespace().nth(1).unwrap_or("").to_string())
        } else {
            Command::Unknown
        };
        assert_eq!(parse_command(line), expected, "{:?}", line);
    }
}

#[test]
fn help_lists_the_commands() {
    assert_eq!(show_help(), HELP);
    let lines: Vec<&str> = show_help().lines().collect();
    assert_eq!(
        lines,
        vec![
            "可用命令：",
            "  download <BID> - 下载音频",
            "  debug - 切换调试模式",
            "  list - 列出所有已下载的音频",
            "  play <序号> - 播放指定序号的音频",
            "  exit - 退出程序",
        ]
    );
    assert!(show_help().ends_with('\n'));
}

#[test]
fn numbers_of_the_listing_can_be_played_as_printed() {
    let mut text = String::new();
    for i in 0..25 {
        text.push_str(&format!("BV{}|Title {}|output/BV{}.mp3\n", i, i, i));
    }
    for line in bili_audio::catalog::list_downloaded_audios(&text) {
        let number = line.split('.').next().unwrap();
        let expected: usize = number.parse().unwrap();
        assert_eq!(parse_command(&format!("play {}", number)), Command::Play(expected));
        let path = bili_audio::catalog::play_audio_by_index(&text, expected).unwrap();
        assert_eq!(path, format!("output/BV{}.mp3", expected - 1));
    }
}
