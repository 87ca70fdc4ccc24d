-- Formats the message about an approval.
--
-- The bot calls `main` for every approval that is worth a message. An empty
-- text means that nothing is sent.

local icons = {
    ["Code-Review"] = { positive = "👍", negative = "👎", neutral = "📝" },
    ["Verified"] = { positive = "✔", negative = "✘", neutral = "📝" },
}

local function icon_for(icon, value)
    if value > 0 then
        return icon.positive
    elseif value < 0 then
        return icon.negative
    end
    return icon.neutral
end

-- The comment without its first line, which only repeats the votes.
local function quote(comment)
    local lines = {}
    local first = true
    for line in string.gmatch(comment or "", "[^\n]+") do
        if not first then
            table.insert(lines, "> " .. line)
        end
        first = false
    end
    return table.concat(lines, "<br>\n")
end

function main(approver, comment, value, type, url, subject)
    local icon = icons[type]
    if not icon then
        return ""
    end
    local sign = value > 0 and "+" or ""
    local message = string.format("[%s](%s) %s %s%d (%s) from %s",
        subject, url, icon_for(icon, value), sign, value, type, approver)
    local quoted = quote(comment)
    if quoted ~= "" then
        message = message .. "\n\n" .. quoted
    end
    return message
end
