use ccelerate::parse_ar::ArArgs;

fn check_round_trip(args: &[String]) {
    let parse1 = ArArgs::parse("/first/path", args);
    let parse1_to_args = parse1.as_ref().unwrap().to_args();
    let parse2 = ArArgs::parse("/second/path", &parse1_to_args);
    assert_eq!(parse2.unwrap(), parse1.unwrap());
}

#[test]
fn test_parse_ar() {
    let raw_args = vec![
        "qc",
        "lib/libbf_io_grease_pencil.a",
        "source/blender/io/grease_pencil/CMakeFiles/bf_io_grease_pencil.dir/intern/grease_pencil_io.cc.o",
        "source/blender/io/grease_pencil/CMakeFiles/bf_io_grease_pencil.dir/intern/grease_pencil_io_import_svg.cc.o",
        "source/blender/io/grease_pencil/CMakeFiles/bf_io_grease_pencil.dir/intern/grease_pencil_io_export_svg.cc.o",
        "source/blender/io/grease_pencil/CMakeFiles/bf_io_grease_pencil.dir/intern/grease_pencil_io_export_pdf.cc.o",
    ];
    let raw_args: Vec<String> = raw_args.iter().map(|s| s.to_string()).collect();

    let args = ArArgs::parse("/home/jacques/Documents/ccelerate_test/build_blender", &raw_args);
    assert!(args.is_ok());
    let args = args.unwrap();
    assert_eq!(args.flag_q, true);
    assert_eq!(args.flag_c, true);
    assert_eq!(
        args.output,
        Some(String::from(
            "/home/jacques/Documents/ccelerate_test/build_blender/lib/libbf_io_grease_pencil.a"
        ))
    );
    assert_eq!(
        args.sources,
        vec![
            "/home/jacques/Documents/ccelerate_test/build_blender/source/blender/io/grease_pencil/CMakeFiles/bf_io_grease_pencil.dir/intern/grease_pencil_io.cc.o",
            "/home/jacques/Documents/ccelerate_test/build_blender/source/blender/io/grease_pencil/CMakeFiles/bf_io_grease_pencil.dir/intern/grease_pencil_io_import_svg.cc.o",
            "/home/jacques/Documents/ccelerate_test/build_blender/source/blender/io/grease_pencil/CMakeFiles/bf_io_grease_pencil.dir/intern/grease_pencil_io_export_svg.cc.o",
            "/home/jacques/Documents/ccelerate_test/build_blender/source/blender/io/grease_pencil/CMakeFiles/bf_io_grease_pencil.dir/intern/grease_pencil_io_export_pdf.cc.o",
        ].iter().map(|s| s.to_string()).collect::<Vec<_>>()
    );

    check_round_trip(&raw_args);
}

