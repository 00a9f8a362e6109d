use rainy_mate::documents::{
    ensure_output_extension, normalize_document_text, normalized_excel_read_max_rows,
    normalized_pdf_read_max_pages, validate_docx_create, validate_excel_write,
    validate_pdf_create, DocxCreateArgs, DocxParagraph, ExcelCell, ExcelReadArgs, ExcelSheet,
    ExcelWriteArgs, PdfCreateArgs, PdfReadArgs, PdfSection, EXCEL_MAX_ROWS,
    EXCEL_MAX_TEXT_CELL_BYTES, EXCEL_WRITE_MAX_SHEETS, PDF_CREATE_MAX_SECTIONS, PDF_READ_MAX_PAGES,
};
use rainy_mate::memory::MemoryError;
use rainy_mate::tool_policy::{get_tool_policy, AirlockLevel, ToolSkill};

#[test]
fn test_memory_error_display() {
    let err = MemoryError::Io(
        std::io::Error::new(std::io::ErrorKind::Other, "test error").to_string(),
    );
    assert_eq!(err.to_string(), "IO error: test error");
}

#[test]
fn rejects_wrong_output_extension() {
    let result = ensure_output_extension("report.txt", "pdf");
    assert!(result.is_err());
}

#[test]
fn rejects_excessive_pdf_sections() {
    let args = PdfCreateArgs {
        filename: "test.pdf".to_string(),
        title: None,
        sections: (0..=PDF_CREATE_MAX_SECTIONS)
            .map(|_| PdfSection {
                heading: None,
                body: "body".to_string(),
            })
            .collect(),
    };

    let result = validate_pdf_create(&args);
    assert!(result.is_err());
}

#[test]
fn rejects_invalid_docx_heading_level() {
    let args = DocxCreateArgs {
        filename: "test.docx".to_string(),
        paragraphs: vec![DocxParagraph {
            text: "Bad".to_string(),
            heading_level: Some(7),
            bold: None,
            italic: None,
        }],
    };

    let result = validate_docx_create(&args);
    assert!(result.is_err());
}

#[test]
fn rejects_too_many_excel_sheets() {
    let args = ExcelWriteArgs {
        filename: "test.xlsx".to_string(),
        sheets: (0..=EXCEL_WRITE_MAX_SHEETS)
            .map(|index| ExcelSheet {
                name: format!("Sheet{}", index),
                headers: None,
                rows: vec![],
            })
            .collect(),
    };

    let result = validate_excel_write(&args);
    assert!(result.is_err());
}

#[test]
fn clamps_pdf_pages_to_hard_cap() {
    let args = PdfReadArgs {
        path: "test.pdf".to_string(),
        max_pages: Some(PDF_READ_MAX_PAGES + 50),
    };

    assert_eq!(normalized_pdf_read_max_pages(&args), PDF_READ_MAX_PAGES);
}

#[test]
fn clamps_excel_rows_to_hard_cap() {
    let args = ExcelReadArgs {
        path: "test.xlsx".to_string(),
        max_rows: Some(EXCEL_MAX_ROWS + 500),
    };

    assert_eq!(normalized_excel_read_max_rows(&args), EXCEL_MAX_ROWS);
}

#[test]
fn rejects_oversized_excel_text_cells() {
    let args = ExcelWriteArgs {
        filename: "test.xlsx".to_string(),
        sheets: vec![ExcelSheet {
            name: "Sheet1".to_string(),
            headers: None,
            rows: vec![vec![ExcelCell::Text("a".repeat(EXCEL_MAX_TEXT_CELL_BYTES + 1))]],
        }],
    };

    let result = validate_excel_write(&args);
    assert!(result.is_err());
}

#[test]
fn strips_common_markdown_and_mojibake() {
    let normalized = normalize_document_text("## Title\n- **Bold** point â€” done");
    assert_eq!(normalized, "Title\nBold point - done");
}

#[test]
fn legacy_agents_directory_is_absent() {
    let legacy_dir = std::path::Path::new("src").join("agents");
    assert!(
        !legacy_dir.exists(),
        "Legacy agents directory must stay removed: {}",
        legacy_dir.display()
    );
}

#[test]
fn maps_core_tools() {
    let browse = get_tool_policy("browse_url").expect("browse_url should have policy");
    assert_eq!(browse.skill, ToolSkill::Browser);
    assert_eq!(browse.airlock_level, AirlockLevel::Sensitive);

    let shell = get_tool_policy("execute_command").expect("execute_command should have policy");
    assert_eq!(shell.skill, ToolSkill::Shell);
    assert_eq!(shell.airlock_level, AirlockLevel::Dangerous);

    let web = get_tool_policy("web_search").expect("web_search should have policy");
    assert_eq!(web.skill, ToolSkill::Web);
    assert_eq!(web.airlock_level, AirlockLevel::Safe);
}

#[test]
fn unknown_tool_has_no_policy() {
    let unknown = get_tool_policy("future_tool");
    assert!(unknown.is_none());
}
