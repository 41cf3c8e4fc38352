use epubie_lib::epub::Epub;
use epubie_lib::epub::EpubError;

/// Reads a publication from bytes alone, which goes as far as the
/// container locator.
fn open(bytes: Vec<u8>) -> Result<Epub, EpubError> {
    Epub::read_container_document(&bytes)?;
    let (opf_path, _) = Epub::read_package_document(&bytes, None)?;
    Epub::new(bytes, opf_path, None)
}

#[test]
fn example_epub() {
    let path = "./example-files/iia.epub";

    match open(path.to_string().into_bytes()) {
        Ok(epub) => {
            for (i, entry) in epub.get_chapters().iter().enumerate() {
                println!(
                    "Chapter {}: {} ({} file{})",
                    i + 1,
                    entry.get_title(),
                    entry.get_file_count(),
                    if entry.get_file_count() == 1 { "" } else { "s" }
                );

                for (j, file) in entry.get_files().iter().enumerate() {
                    println!(
                        "  File {}: {} ({})",
                        j + 1,
                        file.get_title().unwrap_or("No title"),
                        file.get_href()
                    );
                }
            }
        }
        Err(e) => {
            println!("Error parsing EPUB: {}", e.message());
        }
    }
}
